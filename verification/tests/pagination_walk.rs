use image_pager::connection::{Context, Query};
use image_pager::cursor::decode_cursor;

fn context(image_count: i32) -> Context {
    Context {
        base_url: url::Url::parse("http://example.com/").unwrap(),
        image_count,
    }
}

/// Walks the whole collection with a constant `first`, feeding each page's
/// end cursor back as `after`, and returns every id listed, in order.
fn walk(first: i32, image_count: i32) -> Vec<i32> {
    let ctx = context(image_count);
    let mut seen: Vec<i32> = Vec::new();
    let mut after: Option<String> = None;
    loop {
        let conn = Query::images(&ctx, first, after.take())
            .expect("cursor came from the library")
            .expect("the walk never runs past the end");
        for edge in conn.edge(&ctx) {
            seen.push(edge.id);
        }
        let info = conn.page_info();
        if !info.has_next_page(&ctx) {
            break;
        }
        after = Some(info.end_cursor(&ctx));
    }
    seen
}

#[test]
fn enumerates_every_id_exactly_once() {
    let all: Vec<i32> = (1..=5).collect();
    assert_eq!(walk(2, 5), all);
    assert_eq!(walk(1, 5), all);
    assert_eq!(walk(3, 5), all);
    assert_eq!(walk(5, 5), all);
    assert_eq!(walk(7, 5), all);
}

#[test]
fn enumerates_a_larger_collection() {
    let all: Vec<i32> = (1..=1000).collect();
    assert_eq!(walk(17, 1000), all);
}

#[test]
fn pages_meet_with_no_gap_or_overlap() {
    let ctx = context(100);
    let first_page = Query::images(&ctx, 30, None).unwrap().unwrap();
    let end = first_page.page_info().end_cursor(&ctx);
    assert_eq!(end, "image-30");
    assert_eq!(decode_cursor(&end), Ok(30));
    let second_page = Query::images(&ctx, 30, Some(end)).unwrap().unwrap();
    let ids: Vec<i32> = second_page.edge(&ctx).iter().map(|e| e.id).collect();
    assert_eq!(ids, (31..=60).collect::<Vec<i32>>());
}
