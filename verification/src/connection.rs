//! The connection resolver: turns a `(first, after)` request and the size of
//! the image universe into the inclusive identifier window of one page and
//! its derived fields (edges, nodes, page info, total count).

use vstd::prelude::*;
use crate::cursor::{
    cursor_chars, cursor_value, cursor_wf, decode_cursor, encode_cursor, CursorError,
};
use crate::urls::url_join;

verus! {

/// Process-wide configuration: the base URL images are served under and the
/// fixed size of the image universe.
pub struct Context {
    pub base_url: url::Url,
    pub image_count: i32,
}

/// Last identifier of the window selected by `(first, after)` within a
/// universe of `max` images: the requested end of page, clamped to `max`.
pub open spec fn window_end(first: int, after: Option<i32>, max: int) -> int {
    match after {
        Some(a) => if max < first + a { max } else { first + a },
        None => if max < first { max } else { first },
    }
}

/// First identifier of the window: the position after the cursor, or the
/// start of the collection.
pub open spec fn window_start(after: Option<i32>) -> int {
    match after {
        Some(a) => a + 1,
        None => 1,
    }
}

/// Number of identifiers in the window; zero when the window is inverted
/// (which happens when `first <= 0`).
pub open spec fn window_len(first: int, after: Option<i32>, max: int) -> int {
    if window_end(first, after, max) < window_start(after) {
        0
    } else {
        window_end(first, after, max) - window_start(after) + 1
    }
}

/// The identifier encoded by a page's end cursor: the window end, clamped
/// once more against the universe (a no-op, kept because the protocol states
/// the end cursor with this exact double-clamped formula).
pub open spec fn end_cursor_id(first: int, after: Option<i32>, max: int) -> int {
    if window_end(first, after, max) < max {
        window_end(first, after, max)
    } else {
        max
    }
}

/// Largest identifier the page may return: `first + after` (or `first` alone
/// from the start of the collection), clamped to the universe size `max`.
pub fn range_max(first: i32, after: Option<i32>, max: i32) -> (r: i32)
    requires
        match after {
            Some(a) => a >= 0,
            None => true,
        },
    ensures
        r as int == window_end(first as int, after, max as int),
{
    match after {
        Some(a) => {
            let sum = first as i64 + a as i64;
            if (max as i64) < sum {
                max
            } else {
                sum as i32
            }
        },
        None => {
            if max < first {
                max
            } else {
                first
            }
        },
    }
}

/// One page of the image collection, determined by the request that asked
/// for it.
#[derive(Debug, Clone, Copy, PartialEq, Eq)]
pub struct ImagesConnection {
    pub first: i32,
    pub after: Option<i32>,
}

/// An edge: one image's position in a connection, carrying its cursor.
#[derive(Debug, Clone, Copy, PartialEq, Eq)]
pub struct ImagesEdge {
    pub id: i32,
}

/// An image; it has no attributes beyond its identifier.
#[derive(Debug, Clone, Copy, PartialEq, Eq)]
pub struct Image {
    pub id: i32,
}

/// The page-info fields of a connection, derived from the same request.
#[derive(Debug, Clone, Copy, PartialEq, Eq)]
pub struct PageInfo {
    pub first: i32,
    pub after: Option<i32>,
}

/// The query root of the API.
pub struct Query;

impl Query {
    /// Resolves a page request. A raw `after` cursor is decoded first: a
    /// malformed cursor fails the whole resolution. A cursor that points at
    /// or past the end of the universe (`image_count < after + 1`) yields
    /// the absent connection (`Ok(None)`), distinguishable from a valid
    /// empty page. Everything else — any `first`, including zero and
    /// negative — yields a connection.
    pub fn images(context: &Context, first: i32, after: Option<String>) -> (r: Result<
        Option<ImagesConnection>,
        CursorError,
    >)
        ensures
            match after {
                None => r == Ok::<Option<ImagesConnection>, CursorError>(
                    Some((ImagesConnection { first, after: None })),
                ),
                Some(raw) => if !cursor_wf(raw@) {
                    r == Err::<Option<ImagesConnection>, CursorError>(CursorError::Malformed)
                } else if context.image_count < cursor_value(raw@) + 1 {
                    r == Ok::<Option<ImagesConnection>, CursorError>(None)
                } else {
                    r == Ok::<Option<ImagesConnection>, CursorError>(
                        Some(
                            (ImagesConnection {
                                first,
                                after: Some((cursor_value(raw@) as i32)),
                            }),
                        ),
                    )
                },
            },
    {
        match after {
            Some(data) => {
                match decode_cursor(data.as_str()) {
                    Ok(position) => {
                        // The page would start at `position + 1`; past the
                        // end of the universe there is nothing to connect.
                        if context.image_count <= position {
                            Ok(None)
                        } else {
                            Ok(Some(ImagesConnection { first, after: Some(position) }))
                        }
                    },
                    Err(e) => Err(e),
                }
            },
            None => Ok(Some(ImagesConnection { first, after: None })),
        }
    }
}

impl ImagesConnection {
    /// A decoded `after` cursor is never negative.
    pub open spec fn wf(self) -> bool {
        match self.after {
            Some(a) => a >= 0,
            None => true,
        }
    }

    /// The edges of the page: one per identifier in the window, in
    /// ascending order.
    pub fn edge(&self, context: &Context) -> (r: Vec<ImagesEdge>)
        requires
            self.wf(),
        ensures
            r@.len() == window_len(self.first as int, self.after, context.image_count as int),
            forall|k: int|
                0 <= k < r@.len() ==> (#[trigger] r@[k]).id as int == window_start(self.after)
                    + k,
    {
        let start: i64 = match self.after {
            Some(a) => a as i64 + 1,
            None => 1,
        };
        let end = range_max(self.first, self.after, context.image_count);
        let mut out: Vec<ImagesEdge> = Vec::new();
        let mut id: i64 = start;
        while id <= end as i64
            invariant
                start == window_start(self.after),
                end as int == window_end(self.first as int, self.after, context.image_count as int),
                start <= id,
                id <= end as i64 + 1 || id == start,
                out@.len() == id - start,
                forall|k: int| 0 <= k < out@.len() ==> (#[trigger] out@[k]).id as int == start + k,
                i32::MIN <= end <= i32::MAX,
            decreases end as i64 + 1 - id,
        {
            out.push(ImagesEdge { id: id as i32 });
            id = id + 1;
        }
        out
    }

    /// The nodes of the page: the same identifiers as the edges, in the
    /// same order, without the cursor wrapper.
    pub fn nodes(&self, context: &Context) -> (r: Vec<Image>)
        requires
            self.wf(),
        ensures
            r@.len() == window_len(self.first as int, self.after, context.image_count as int),
            forall|k: int|
                0 <= k < r@.len() ==> (#[trigger] r@[k]).id as int == window_start(self.after)
                    + k,
    {
        let start: i64 = match self.after {
            Some(a) => a as i64 + 1,
            None => 1,
        };
        let end = range_max(self.first, self.after, context.image_count);
        let mut out: Vec<Image> = Vec::new();
        let mut id: i64 = start;
        while id <= end as i64
            invariant
                start == window_start(self.after),
                end as int == window_end(self.first as int, self.after, context.image_count as int),
                start <= id,
                id <= end as i64 + 1 || id == start,
                out@.len() == id - start,
                forall|k: int| 0 <= k < out@.len() ==> (#[trigger] out@[k]).id as int == start + k,
                i32::MIN <= end <= i32::MAX,
            decreases end as i64 + 1 - id,
        {
            out.push(Image { id: id as i32 });
            id = id + 1;
        }
        out
    }

    /// The page info of this page, derived from the same request pair.
    pub fn page_info(&self) -> (r: PageInfo)
        ensures
            r.first == self.first,
            r.after == self.after,
    {
        PageInfo { first: self.first, after: self.after }
    }

    /// The size of the whole universe, echoed independently of the window.
    pub fn total_count(context: &Context) -> (r: i32)
        ensures
            r == context.image_count,
    {
        context.image_count
    }
}

impl ImagesEdge {
    /// The cursor naming this edge's position.
    pub fn cursor(&self) -> (s: String)
        ensures
            s@ == cursor_chars(self.id as int),
    {
        encode_cursor(self.id)
    }

    /// The image this edge points at.
    pub fn node(&self) -> (r: Image)
        ensures
            r.id == self.id,
    {
        Image { id: self.id }
    }
}

/// The path of an image relative to the base URL: `image/image-<id>.png`.
pub open spec fn image_path_chars(id: int) -> Seq<char> {
    "image/"@ + cursor_chars(id) + ".png"@
}

impl Image {
    /// The path of this image relative to the base URL.
    pub fn path(&self) -> (s: String)
        ensures
            s@ == image_path_chars(self.id as int),
    {
        let mut s = "image/".to_owned();
        let c = encode_cursor(self.id);
        s.append(c.as_str());
        s.append(".png");
        proof {
            assert(s@ =~= image_path_chars(self.id as int));
        }
        s
    }

    /// This image's URL under the configured base URL: the join of
    /// `image/image-<id>.png` (see `path`, which carries the exact
    /// contract) onto `context.base_url`. `None` when the base URL is no
    /// valid join base — a configuration-time fault, not a per-request one.
    pub fn url(&self, context: &Context) -> Option<url::Url> {
        let p = self.path();
        url_join(&context.base_url, p.as_str())
    }
}

impl PageInfo {
    /// The cursor of the position this page starts at, computed whether or
    /// not the window is empty.
    pub fn start_cursor(&self) -> (s: String)
        requires
            match self.after {
                Some(a) => a < i32::MAX,
                None => true,
            },
        ensures
            s@ == cursor_chars(window_start(self.after)),
    {
        match self.after {
            Some(position) => encode_cursor(position + 1),
            None => encode_cursor(1),
        }
    }

    /// The cursor of the last position of the window, clamped against the
    /// universe once more.
    pub fn end_cursor(&self, context: &Context) -> (s: String)
        requires
            match self.after {
                Some(a) => a >= 0,
                None => true,
            },
        ensures
            s@ == cursor_chars(
                end_cursor_id(self.first as int, self.after, context.image_count as int),
            ),
    {
        let max = range_max(self.first, self.after, context.image_count);
        let next = if max < context.image_count {
            max
        } else {
            context.image_count
        };
        encode_cursor(next)
    }

    /// Whether the collection goes on past this window.
    pub fn has_next_page(&self, context: &Context) -> (b: bool)
        requires
            match self.after {
                Some(a) => a >= 0,
                None => true,
            },
        ensures
            b == (window_end(self.first as int, self.after, context.image_count as int)
                < context.image_count as int),
    {
        range_max(self.first, self.after, context.image_count) < context.image_count
    }

    /// The connection never looks backward: a known simplification of the
    /// protocol, kept deliberately.
    pub fn has_previous_page() -> (b: bool)
        ensures
            !b,
    {
        false
    }
}

} // verus!
