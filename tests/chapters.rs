use chapter_service::chapters::{ChapterDetails, Chapters, ReorderData};
use chapter_service::error::Error;
use chapter_service::mux_data;
use chapter_service::records::{Attachment, Chapter, Course, Purchase, UserProgress};
use chapter_service::store::Db;
use chapter_service::update::{patches_of, AssetReply, ChapterPatch, FieldValue, UpdateStep};

fn s(v: &str) -> String {
    v.to_string()
}

fn course(id: &str, owner: &str, published: bool) -> Course {
    Course { id: s(id), user_id: s(owner), price: Some(20), is_published: published }
}

fn chapter(id: &str, course_id: &str, position: i32, published: bool) -> Chapter {
    Chapter {
        id: s(id),
        course_id: s(course_id),
        title: s(id),
        description: None,
        video_url: None,
        position,
        is_published: published,
        is_free: false,
        created_at: 0,
        updated_at: 0,
    }
}

fn full_chapter(id: &str, course_id: &str, position: i32, published: bool) -> Chapter {
    let mut c = chapter(id, course_id, position, published);
    c.description = Some(s("about"));
    c.video_url = Some(s("https://videos/a.mp4"));
    c
}

fn asset(id: &str, asset_id: &str, chapter_id: &str) -> mux_data::Model {
    mux_data::Model {
        id: s(id),
        asset_id: s(asset_id),
        playback_id: Some(s("pb")),
        chapter_id: s(chapter_id),
    }
}

fn db_with(courses: Vec<Course>, chapters: Vec<Chapter>) -> Db {
    let mut db = Db::new();
    db.courses = courses;
    db.chapters = chapters;
    db
}

fn chapter_of<'a>(db: &'a Db, id: &str) -> &'a Chapter {
    db.chapters.iter().find(|c| c.id == id).unwrap()
}

fn ids(list: &[Chapter]) -> Vec<String> {
    list.iter().map(|c| c.id.clone()).collect()
}

fn created(asset_id: &str) -> AssetReply {
    AssetReply { status: 201, asset_id: s(asset_id), playback_id: Some(s("play")) }
}

#[test]
fn publish_with_all_fields_and_asset() {
    let mut db = db_with(vec![course("c1", "u1", false)], vec![full_chapter("a", "c1", 1, false)]);
    db.mux_data.push(asset("m1", "remote1", "a"));
    assert_eq!(Chapters::publish(&mut db, s("u1"), s("c1"), s("a")), Ok(()));
    assert!(chapter_of(&db, "a").is_published);
    assert!(!db.courses[0].is_published);
}

#[test]
fn publish_without_description_fails_validation() {
    let mut c = full_chapter("a", "c1", 1, false);
    c.description = None;
    let mut db = db_with(vec![course("c1", "u1", false)], vec![c]);
    db.mux_data.push(asset("m1", "remote1", "a"));
    assert_eq!(Chapters::publish(&mut db, s("u1"), s("c1"), s("a")), Err(Error::ValidationFailed));
    assert!(!chapter_of(&db, "a").is_published);
}

#[test]
fn publish_without_video_url_fails_validation() {
    let mut c = full_chapter("a", "c1", 1, false);
    c.video_url = None;
    let mut db = db_with(vec![course("c1", "u1", false)], vec![c]);
    db.mux_data.push(asset("m1", "remote1", "a"));
    assert_eq!(Chapters::publish(&mut db, s("u1"), s("c1"), s("a")), Err(Error::ValidationFailed));
}

#[test]
fn publish_without_asset_fails_validation() {
    let mut db = db_with(vec![course("c1", "u1", false)], vec![full_chapter("a", "c1", 1, false)]);
    assert_eq!(Chapters::publish(&mut db, s("u1"), s("c1"), s("a")), Err(Error::ValidationFailed));
}

#[test]
fn publish_chapter_of_other_course_is_not_found() {
    let mut db = db_with(
        vec![course("c1", "u1", false), course("c2", "u1", false)],
        vec![full_chapter("a", "c2", 1, false)],
    );
    db.mux_data.push(asset("m1", "remote1", "a"));
    assert_eq!(Chapters::publish(&mut db, s("u1"), s("c1"), s("a")), Err(Error::NotFound));
}

#[test]
fn publish_keeps_unpublished_course_flag() {
    let mut db = db_with(vec![course("c1", "u1", false)], vec![full_chapter("a", "c1", 1, false)]);
    db.mux_data.push(asset("m1", "remote1", "a"));
    Chapters::publish(&mut db, s("u1"), s("c1"), s("a")).unwrap();
    assert!(!db.courses[0].is_published);
}

#[test]
fn unpublish_last_published_unpublishes_course() {
    let mut db = db_with(
        vec![course("c1", "u1", true)],
        vec![chapter("a", "c1", 1, true), chapter("b", "c1", 2, false)],
    );
    assert_eq!(Chapters::unpublish(&mut db, s("u1"), s("c1"), s("a")), Ok(()));
    assert!(!chapter_of(&db, "a").is_published);
    assert!(!db.courses[0].is_published);
}

#[test]
fn unpublish_keeps_course_while_others_published() {
    let mut db = db_with(
        vec![course("c1", "u1", true)],
        vec![chapter("a", "c1", 1, true), chapter("b", "c1", 2, true)],
    );
    assert_eq!(Chapters::unpublish(&mut db, s("u1"), s("c1"), s("a")), Ok(()));
    assert!(db.courses[0].is_published);
}

#[test]
fn delete_last_published_unpublishes_course() {
    let mut db = db_with(
        vec![course("c1", "u1", true)],
        vec![chapter("a", "c1", 1, true), chapter("b", "c1", 2, false)],
    );
    assert_eq!(Chapters::delete(&mut db, s("u1"), s("c1"), s("a")), Ok(None));
    assert_eq!(ids(&db.chapters), vec![s("b")]);
    assert!(!db.courses[0].is_published);
}

#[test]
fn delete_keeps_course_while_others_published() {
    let mut db = db_with(
        vec![course("c1", "u1", true)],
        vec![chapter("a", "c1", 1, true), chapter("b", "c1", 2, true)],
    );
    assert_eq!(Chapters::delete(&mut db, s("u1"), s("c1"), s("a")), Ok(None));
    assert!(db.courses[0].is_published);
}

#[test]
fn delete_hands_back_asset_for_remote_delete() {
    let mut db = db_with(vec![course("c1", "u1", true)], vec![full_chapter("a", "c1", 1, true)]);
    db.mux_data.push(asset("m0", "remote0", "other"));
    db.mux_data.push(asset("m1", "remote1", "a"));
    assert_eq!(Chapters::delete(&mut db, s("u1"), s("c1"), s("a")), Ok(Some(s("remote1"))));
    assert_eq!(db.mux_data.len(), 1);
    assert_eq!(db.mux_data[0].chapter_id, "other");
    assert!(db.chapters.is_empty());
    assert!(!db.courses[0].is_published);
}

#[test]
fn delete_without_video_url_drops_asset_row_only() {
    let mut db = db_with(vec![course("c1", "u1", false)], vec![chapter("a", "c1", 1, false)]);
    db.mux_data.push(asset("m1", "remote1", "a"));
    assert_eq!(Chapters::delete(&mut db, s("u1"), s("c1"), s("a")), Ok(None));
    assert!(db.mux_data.is_empty());
}

#[test]
fn delete_missing_chapter_is_not_found() {
    let mut db = db_with(vec![course("c1", "u1", true)], vec![chapter("a", "c1", 1, true)]);
    assert_eq!(Chapters::delete(&mut db, s("u1"), s("c1"), s("zz")), Err(Error::NotFound));
    assert_eq!(db.chapters.len(), 1);
}

#[test]
fn update_progress_twice_keeps_one_row() {
    let mut db = Db::new();
    Chapters::update_progress(&mut db, s("u1"), s("a"), false, s("row_a"), 10).unwrap();
    Chapters::update_progress(&mut db, s("u1"), s("a"), true, s("row_b"), 20).unwrap();
    assert_eq!(db.progress.len(), 1);
    let row: &UserProgress = &db.progress[0];
    assert_eq!(row.id, "row_a");
    assert!(row.is_completed);
    assert_eq!(row.created_at, 10);
    assert_eq!(row.updated_at, 20);
}

#[test]
fn update_progress_other_user_adds_row() {
    let mut db = Db::new();
    Chapters::update_progress(&mut db, s("u1"), s("a"), true, s("row_a"), 10).unwrap();
    Chapters::update_progress(&mut db, s("u2"), s("a"), false, s("row_b"), 11).unwrap();
    assert_eq!(db.progress.len(), 2);
    assert!(db.progress[0].is_completed);
    assert!(!db.progress[1].is_completed);
}

#[test]
fn create_on_empty_course_is_position_one() {
    let mut db = db_with(vec![course("c1", "u1", false)], vec![]);
    let list = Chapters::create(&mut db, s("u1"), s("c1"), s("Intro"), s("n1"), 5).unwrap();
    assert_eq!(list.len(), 1);
    assert_eq!(list[0].position, 1);
    assert_eq!(list[0].title, "Intro");
    assert!(!list[0].is_published);
    assert!(list[0].video_url.is_none());
}

#[test]
fn create_goes_one_past_lowest_position() {
    let mut db = db_with(
        vec![course("c1", "u1", false)],
        vec![chapter("a", "c1", 5, false), chapter("b", "c1", 3, false), chapter("x", "c9", 0, false)],
    );
    let list = Chapters::create(&mut db, s("u1"), s("c1"), s("New"), s("n1"), 5).unwrap();
    assert_eq!(ids(&list), vec![s("b"), s("n1"), s("a")]);
    assert_eq!(chapter_of(&db, "n1").position, 4);
}

#[test]
fn create_with_taken_id_fails_in_store() {
    let mut db = db_with(vec![course("c1", "u1", false)], vec![chapter("a", "c1", 1, false)]);
    let r = Chapters::create(&mut db, s("u1"), s("c1"), s("New"), s("a"), 5);
    assert_eq!(r.err(), Some(Error::StoreFailure));
    assert_eq!(db.chapters.len(), 1);
}

#[test]
fn create_past_largest_position_fails_in_store() {
    let mut db = db_with(vec![course("c1", "u1", false)], vec![chapter("a", "c1", i32::MAX, false)]);
    let r = Chapters::create(&mut db, s("u1"), s("c1"), s("New"), s("n1"), 5);
    assert_eq!(r.err(), Some(Error::StoreFailure));
}

#[test]
fn reorder_swaps_two_chapters() {
    let mut db = db_with(
        vec![course("c1", "u1", false)],
        vec![chapter("A", "c1", 1, false), chapter("B", "c1", 2, false)],
    );
    let list = vec![
        ReorderData { id: s("A"), position: 2 },
        ReorderData { id: s("B"), position: 1 },
    ];
    let out = Chapters::reorder(&mut db, s("u1"), s("c1"), list).unwrap();
    assert_eq!(ids(&out), vec![s("B"), s("A")]);
    assert_eq!(out[0].position, 1);
    assert_eq!(out[1].position, 2);
}

#[test]
fn reorder_equal_positions_keep_store_order() {
    let mut db = db_with(
        vec![course("c1", "u1", false)],
        vec![chapter("A", "c1", 1, false), chapter("B", "c1", 2, false), chapter("C", "c1", 3, false)],
    );
    let list = vec![
        ReorderData { id: s("C"), position: 1 },
        ReorderData { id: s("B"), position: 1 },
        ReorderData { id: s("A"), position: 1 },
    ];
    let out = Chapters::reorder(&mut db, s("u1"), s("c1"), list).unwrap();
    assert_eq!(ids(&out), vec![s("A"), s("B"), s("C")]);
}

#[test]
fn reorder_missing_chapter_stops_partway() {
    let mut db = db_with(
        vec![course("c1", "u1", false)],
        vec![chapter("A", "c1", 1, false), chapter("B", "c1", 2, false)],
    );
    let list = vec![
        ReorderData { id: s("A"), position: 7 },
        ReorderData { id: s("zz"), position: 1 },
        ReorderData { id: s("B"), position: 9 },
    ];
    let r = Chapters::reorder(&mut db, s("u1"), s("c1"), list);
    assert_eq!(r.err(), Some(Error::NotFound));
    assert_eq!(chapter_of(&db, "A").position, 7);
    assert_eq!(chapter_of(&db, "B").position, 2);
}

#[test]
fn update_sets_plain_fields() {
    let mut db = db_with(vec![course("c1", "u1", false)], vec![chapter("a", "c1", 1, false)]);
    let patches = vec![
        ChapterPatch::Title(s("New title")),
        ChapterPatch::Description(s("Text")),
        ChapterPatch::IsFree(true),
    ];
    let (_, step) = Chapters::update(&mut db, s("u1"), s("c1"), s("a"), patches).unwrap();
    assert!(matches!(step, UpdateStep::Done));
    let c = chapter_of(&db, "a");
    assert_eq!(c.title, "New title");
    assert_eq!(c.description, Some(s("Text")));
    assert!(c.is_free);
}

#[test]
fn update_video_url_twice_keeps_one_asset() {
    let mut db = db_with(vec![course("c1", "u1", false)], vec![chapter("a", "c1", 1, false)]);
    let mut remote_log: Vec<String> = Vec::new();
    for (url, remote, row) in [("https://v/1.mp4", "r1", "m1"), ("https://v/2.mp4", "r2", "m2")] {
        let patches = vec![ChapterPatch::VideoUrl(s(url))];
        let (mut session, step) = Chapters::update(&mut db, s("u1"), s("c1"), s("a"), patches).unwrap();
        match step {
            UpdateStep::CreateAsset { delete_asset, source_url } => {
                if let Some(old) = delete_asset {
                    remote_log.push(format!("delete {}", old));
                }
                remote_log.push(format!("create {}", source_url));
            }
            UpdateStep::Done => panic!("a video URL asks for an asset"),
        }
        session.resume(&mut db, created(remote), s(row)).unwrap();
        assert!(matches!(session.advance(&mut db), Ok(UpdateStep::Done)));
    }
    assert_eq!(
        remote_log,
        vec![s("create https://v/1.mp4"), s("delete r1"), s("create https://v/2.mp4")]
    );
    assert_eq!(db.mux_data.len(), 1);
    assert_eq!(db.mux_data[0].asset_id, "r2");
    assert_eq!(db.mux_data[0].id, "m2");
    assert_eq!(db.mux_data[0].playback_id, Some(s("play")));
    assert_eq!(chapter_of(&db, "a").video_url, Some(s("https://v/2.mp4")));
}

#[test]
fn update_applies_patches_after_video_url() {
    let mut db = db_with(vec![course("c1", "u1", false)], vec![chapter("a", "c1", 1, false)]);
    let patches = vec![
        ChapterPatch::Title(s("T")),
        ChapterPatch::VideoUrl(s("https://v/1.mp4")),
        ChapterPatch::IsFree(true),
    ];
    let (mut session, step) = Chapters::update(&mut db, s("u1"), s("c1"), s("a"), patches).unwrap();
    assert!(matches!(step, UpdateStep::CreateAsset { delete_asset: None, .. }));
    assert_eq!(chapter_of(&db, "a").title, "a");
    session.resume(&mut db, created("r1"), s("m1")).unwrap();
    session.advance(&mut db).unwrap();
    let c = chapter_of(&db, "a");
    assert_eq!(c.title, "T");
    assert!(c.is_free);
}

fn provider_error_for(status: u16) -> Error {
    let mut db = db_with(vec![course("c1", "u1", false)], vec![chapter("a", "c1", 1, false)]);
    let patches = vec![ChapterPatch::VideoUrl(s("https://v/1.mp4"))];
    let (session, _) = Chapters::update(&mut db, s("u1"), s("c1"), s("a"), patches).unwrap();
    let reply = AssetReply { status, asset_id: s(""), playback_id: None };
    let e = session.resume(&mut db, reply, s("m1")).unwrap_err();
    assert!(db.mux_data.is_empty());
    assert!(chapter_of(&db, "a").video_url.is_none());
    e
}

#[test]
fn provider_server_error() {
    assert_eq!(provider_error_for(500), Error::ProviderServerError);
}

#[test]
fn provider_unauthorized() {
    assert_eq!(provider_error_for(401), Error::ProviderUnauthorized);
}

#[test]
fn provider_other_status_fails_request() {
    assert_eq!(provider_error_for(404), Error::ProviderRequestFailed);
    assert_eq!(provider_error_for(200), Error::ProviderRequestFailed);
}

#[test]
fn non_owner_always_not_found() {
    let mut db = db_with(vec![course("c1", "u1", true)], vec![full_chapter("a", "c1", 1, true)]);
    db.mux_data.push(asset("m1", "remote1", "a"));
    let u = || s("intruder");
    assert_eq!(Chapters::publish(&mut db, u(), s("c1"), s("a")), Err(Error::NotFound));
    assert_eq!(Chapters::unpublish(&mut db, u(), s("c1"), s("a")), Err(Error::NotFound));
    assert_eq!(Chapters::delete(&mut db, u(), s("c1"), s("a")), Err(Error::NotFound));
    assert_eq!(
        Chapters::create(&mut db, u(), s("c1"), s("t"), s("n"), 1).err(),
        Some(Error::NotFound)
    );
    assert_eq!(
        Chapters::reorder(&mut db, u(), s("c1"), vec![ReorderData { id: s("a"), position: 4 }]).err(),
        Some(Error::NotFound)
    );
    assert!(matches!(
        Chapters::update(&mut db, u(), s("c1"), s("a"), vec![ChapterPatch::Title(s("x"))]),
        Err(Error::NotFound)
    ));
    assert_eq!(db.chapters.len(), 1);
    assert!(db.chapters[0].is_published);
    assert_eq!(db.chapters[0].position, 1);
    assert!(db.courses[0].is_published);
}

fn gated_db(is_free: bool, bought: bool) -> Db {
    let mut a = full_chapter("a", "c1", 1, true);
    a.is_free = is_free;
    let mut db = db_with(
        vec![course("c1", "owner", true)],
        vec![a, chapter("c", "c1", 3, true), chapter("b", "c1", 2, true), chapter("d", "c1", 2, false)],
    );
    db.mux_data.push(asset("m1", "remote1", "a"));
    db.attachments.push(Attachment { id: s("f1"), course_id: s("c1"), name: s("notes"), url: s("u") });
    db.attachments.push(Attachment { id: s("f2"), course_id: s("c2"), name: s("other"), url: s("u") });
    if bought {
        db.purchases.push(Purchase { id: s("row_a"), user_id: s("u1"), course_id: s("c1") });
    }
    db.progress.push(UserProgress {
        id: s("g1"),
        user_id: s("u1"),
        chapter_id: s("a"),
        is_completed: true,
        created_at: 1,
        updated_at: 1,
    });
    db
}

#[test]
fn get_for_buyer_fills_gated_parts() {
    let db = gated_db(false, true);
    let d: ChapterDetails = Chapters::get(&db, s("u1"), s("c1"), s("a")).unwrap();
    assert_eq!(d.chapter.unwrap().id, "a");
    assert_eq!(d.course_price.unwrap().price, Some(20));
    assert_eq!(d.mux_data.unwrap().asset_id, "remote1");
    let files = d.attachments.unwrap();
    assert_eq!(files.len(), 1);
    assert_eq!(files[0].id, "f1");
    assert_eq!(d.next_chapter.unwrap().id, "b");
    assert!(d.user_progress.unwrap().is_completed);
    assert_eq!(d.purchase.unwrap().id, "row_a");
}

#[test]
fn get_for_visitor_hides_gated_parts() {
    let db = gated_db(false, false);
    let d = Chapters::get(&db, s("u1"), s("c1"), s("a")).unwrap();
    assert!(d.mux_data.is_none());
    assert_eq!(d.attachments.unwrap().len(), 0);
    assert!(d.next_chapter.is_none());
    assert!(d.purchase.is_none());
    assert!(d.user_progress.is_some());
    assert_eq!(d.course_price.unwrap().price, Some(20));
}

#[test]
fn get_free_chapter_shows_gated_parts() {
    let db = gated_db(true, false);
    let d = Chapters::get(&db, s("u1"), s("c1"), s("a")).unwrap();
    assert!(d.mux_data.is_some());
    assert_eq!(d.next_chapter.unwrap().id, "b");
}

#[test]
fn get_unpublished_chapter_is_not_found() {
    let db = gated_db(false, true);
    assert!(matches!(Chapters::get(&db, s("u1"), s("c1"), s("d")), Err(Error::NotFound)));
    let mut db2 = gated_db(false, true);
    db2.courses[0].is_published = false;
    assert!(matches!(Chapters::get(&db2, s("u1"), s("c1"), s("a")), Err(Error::NotFound)));
}

#[test]
fn field_map_keeps_known_keys_of_right_kind() {
    let fields = vec![
        (s("title"), FieldValue::Text(s("T"))),
        (s("isFree"), FieldValue::Text(s("yes"))),
        (s("colour"), FieldValue::Text(s("red"))),
        (s("isFree"), FieldValue::Bool(true)),
        (s("description"), FieldValue::Other),
        (s("videoUrl"), FieldValue::Text(s("https://v/1.mp4"))),
    ];
    let patches = patches_of(&fields);
    assert_eq!(patches.len(), 3);
    assert!(matches!(&patches[0], ChapterPatch::Title(t) if t == "T"));
    assert!(matches!(&patches[1], ChapterPatch::IsFree(true)));
    assert!(matches!(&patches[2], ChapterPatch::VideoUrl(u) if u == "https://v/1.mp4"));
}
