use image_pager::connection::{Context, ImagesConnection, PageInfo, Query};
use image_pager::cursor::CursorError;

fn context(image_count: i32) -> Context {
    Context {
        base_url: url::Url::parse("http://example.com/").unwrap(),
        image_count,
    }
}

fn edge_ids(conn: &ImagesConnection, ctx: &Context) -> Vec<i32> {
    conn.edge(ctx).iter().map(|e| e.id).collect()
}

fn node_ids(conn: &ImagesConnection, ctx: &Context) -> Vec<i32> {
    conn.nodes(ctx).iter().map(|n| n.id).collect()
}

#[test]
fn first_page_of_large_collection() {
    // imageCount = 100000, first = 10, after absent.
    let ctx = context(100_000);
    let conn = Query::images(&ctx, 10, None).unwrap().unwrap();
    assert_eq!(edge_ids(&conn, &ctx), vec![1, 2, 3, 4, 5, 6, 7, 8, 9, 10]);
    assert_eq!(node_ids(&conn, &ctx), vec![1, 2, 3, 4, 5, 6, 7, 8, 9, 10]);
    let info = conn.page_info();
    assert_eq!(info.start_cursor(), "image-1");
    assert_eq!(info.end_cursor(&ctx), "image-10");
    assert!(info.has_next_page(&ctx));
    assert_eq!(ImagesConnection::total_count(&ctx), 100_000);
}

#[test]
fn clamped_last_page() {
    // imageCount = 5, first = 10, after = "image-3".
    let ctx = context(5);
    let conn = Query::images(&ctx, 10, Some("image-3".to_string()))
        .unwrap()
        .unwrap();
    assert_eq!(edge_ids(&conn, &ctx), vec![4, 5]);
    assert_eq!(node_ids(&conn, &ctx), vec![4, 5]);
    let info = conn.page_info();
    assert_eq!(info.start_cursor(), "image-4");
    assert_eq!(info.end_cursor(&ctx), "image-5");
    assert!(!info.has_next_page(&ctx));
}

#[test]
fn past_the_end_cursor_yields_absent_connection() {
    // imageCount = 5, after = "image-5": 5 + 1 > 5, so no connection —
    // distinguishable from a valid empty page.
    let ctx = context(5);
    let r = Query::images(&ctx, 10, Some("image-5".to_string()));
    assert_eq!(r, Ok(None));
    let r = Query::images(&ctx, 10, Some("image-6".to_string()));
    assert_eq!(r, Ok(None));
}

#[test]
fn cursor_at_last_position_still_connects() {
    let ctx = context(5);
    let conn = Query::images(&ctx, 10, Some("image-4".to_string()))
        .unwrap()
        .unwrap();
    assert_eq!(edge_ids(&conn, &ctx), vec![5]);
}

#[test]
fn malformed_cursor_fails_whole_resolution() {
    let ctx = context(100_000);
    for raw in ["abc", "image", "image-x", "image-1-2"] {
        let r = Query::images(&ctx, 10, Some(raw.to_string()));
        assert_eq!(r, Err(CursorError::Malformed));
    }
}

#[test]
fn zero_or_negative_first_gives_empty_page() {
    let ctx = context(100_000);
    let conn = Query::images(&ctx, 0, None).unwrap().unwrap();
    assert_eq!(edge_ids(&conn, &ctx), Vec::<i32>::new());
    let conn = Query::images(&ctx, -7, None).unwrap().unwrap();
    assert_eq!(edge_ids(&conn, &ctx), Vec::<i32>::new());
    // Still a connection, not an error and not the absent value.
    let info = conn.page_info();
    assert_eq!(info.start_cursor(), "image-1");
}

#[test]
fn start_cursor_reflects_would_be_start_even_when_empty() {
    let ctx = context(5);
    let conn = Query::images(&ctx, 0, Some("image-2".to_string()))
        .unwrap()
        .unwrap();
    assert_eq!(edge_ids(&conn, &ctx), Vec::<i32>::new());
    assert_eq!(conn.page_info().start_cursor(), "image-3");
}

#[test]
fn has_previous_page_is_always_false() {
    assert!(!PageInfo::has_previous_page());
    let ctx = context(100_000);
    for after in [None, Some("image-1".to_string()), Some("image-99".to_string())] {
        let conn = Query::images(&ctx, 10, after).unwrap().unwrap();
        let _ = conn.page_info();
        assert!(!PageInfo::has_previous_page());
    }
}

#[test]
fn edge_cursor_and_node_agree() {
    let ctx = context(100_000);
    let conn = Query::images(&ctx, 3, Some("image-41".to_string()))
        .unwrap()
        .unwrap();
    let edges = conn.edge(&ctx);
    let cursors: Vec<String> = edges.iter().map(|e| e.cursor()).collect();
    assert_eq!(cursors, vec!["image-42", "image-43", "image-44"]);
    let ids: Vec<i32> = edges.iter().map(|e| e.node().id).collect();
    assert_eq!(ids, vec![42, 43, 44]);
}

#[test]
fn total_count_is_independent_of_the_window() {
    let ctx = context(17);
    assert_eq!(ImagesConnection::total_count(&ctx), 17);
}

#[test]
fn image_url_joins_path_onto_base() {
    let ctx = context(100_000);
    let conn = Query::images(&ctx, 1, Some("image-6".to_string()))
        .unwrap()
        .unwrap();
    let edges = conn.edge(&ctx);
    let image = edges[0].node();
    assert_eq!(image.id, 7);
    assert_eq!(image.path(), "image/image-7.png");
    let joined = image.url(&ctx).unwrap();
    assert_eq!(joined.as_str(), "http://example.com/image/image-7.png");
}

#[test]
fn image_url_respects_base_path() {
    let ctx = Context {
        base_url: url::Url::parse("https://host/gallery/").unwrap(),
        image_count: 10,
    };
    let image = image_pager::connection::Image { id: 3 };
    let joined = image.url(&ctx).unwrap();
    assert_eq!(joined.as_str(), "https://host/gallery/image/image-3.png");
}
