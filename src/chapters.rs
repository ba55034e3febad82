use crate::error::Error;
use crate::mux_data;
use crate::records::{Attachment, Chapter, Purchase, UserProgress};
use crate::store::{course_listing, courses_after_recount, has_asset, lowest_position, Db};
use vstd::prelude::*;

verus! {

/// The chapter operations of the service.
pub struct Chapters;

/// The price of a course.
pub struct ChapterPrice {
    pub price: Option<i64>,
}

/// What a user sees of a chapter. The asset, the attachments and the next
/// chapter are filled only where the chapter is free or the user bought the
/// course.
pub struct ChapterDetails {
    pub chapter: Option<Chapter>,
    pub course_price: Option<ChapterPrice>,
    pub mux_data: Option<mux_data::Model>,
    pub attachments: Option<Vec<Attachment>>,
    pub next_chapter: Option<Chapter>,
    pub user_progress: Option<UserProgress>,
    pub purchase: Option<Purchase>,
}

/// The attachments of the course `course` in `s`, in their order.
pub open spec fn attachments_of(s: Seq<Attachment>, course: Seq<char>) -> Seq<Attachment>
    decreases s.len(),
{
    if s.len() == 0 {
        s
    } else if s.last().course_id@ == course {
        attachments_of(s.drop_last(), course).push(s.last())
    } else {
        attachments_of(s.drop_last(), course)
    }
}

/// The published chapter of the course `course` in `chs` with the lowest
/// position above `position`; of several, the first.
pub open spec fn next_after(chs: Seq<Chapter>, course: Seq<char>, position: i32) -> Option<Chapter>
    decreases chs.len(),
{
    if chs.len() == 0 {
        None
    } else {
        let rest = next_after(chs.drop_last(), course, position);
        let c = chs.last();
        if c.course_id@ == course && c.is_published && c.position > position {
            match rest {
                Some(n) => if n.position <= c.position {
                    Some(n)
                } else {
                    Some(c)
                },
                None => Some(c),
            }
        } else {
            rest
        }
    }
}

/// A new position for a chapter of a course.
pub struct ReorderData {
    pub id: String,
    pub position: i32,
}

/// `chs` with the position of the chapter `chapter` set to `position`.
pub open spec fn set_position(chs: Seq<Chapter>, chapter: Seq<char>, position: i32) -> Seq<Chapter> {
    chs.map_values(
        |c: Chapter|
            if c.id@ == chapter {
                Chapter { position, ..c }
            } else {
                c
            },
    )
}

/// `chs` after the positions of `items` were written one after the other.
pub open spec fn reordered(chs: Seq<Chapter>, items: Seq<ReorderData>) -> Seq<Chapter>
    decreases items.len(),
{
    if items.len() == 0 {
        chs
    } else {
        set_position(reordered(chs, items.drop_last()), items.last().id@, items.last().position)
    }
}

/// Whether a chapter of id `chapter` is in `chs`, in whatever course.
pub open spec fn has_id(chs: Seq<Chapter>, chapter: Seq<char>) -> bool {
    exists|i: int| 0 <= i < chs.len() && #[trigger] chs[i].id@ == chapter
}

/// The position a new chapter of the course `course` takes: one past the
/// lowest position in the course, or 1 in an empty course.
pub open spec fn new_position(chs: Seq<Chapter>, course: Seq<char>) -> int {
    match lowest_position(chs, course) {
        Some(p) => p + 1,
        None => 1,
    }
}

/// `chs` with the published flag of the chapter `chapter` set to `flag`.
pub open spec fn set_published(chs: Seq<Chapter>, chapter: Seq<char>, flag: bool) -> Seq<Chapter> {
    chs.map_values(
        |c: Chapter|
            if c.id@ == chapter {
                Chapter { is_published: flag, ..c }
            } else {
                c
            },
    )
}

/// Whether the chapter `chapter` of the course `course` may be published: it
/// has a description, a video URL and a video asset.
pub open spec fn publishable(db: Db, course: Seq<char>, chapter: Seq<char>) -> bool {
    &&& exists|i: int|
        0 <= i < db.chapters@.len() && #[trigger] db.chapters@[i].id@ == chapter
            && db.chapters@[i].course_id@ == course && db.chapters@[i].description.is_some()
            && db.chapters@[i].video_url.is_some()
    &&& has_asset(db.mux_data@, chapter)
}

/// Whether the chapter `chapter` in `chs` has a video URL.
pub open spec fn chapter_has_url(chs: Seq<Chapter>, chapter: Seq<char>) -> bool {
    exists|i: int| 0 <= i < chs.len() && #[trigger] chs[i].id@ == chapter && chs[i].video_url.is_some()
}

/// Whether `rows` hold the progress of `user` in `chapter`.
pub open spec fn has_progress(rows: Seq<UserProgress>, user: Seq<char>, chapter: Seq<char>) -> bool {
    exists|i: int|
        0 <= i < rows.len() && #[trigger] rows[i].user_id@ == user && rows[i].chapter_id@
            == chapter
}

/// The progress rows after recording `row`: the row of the same user and
/// chapter takes its completion and update time, or `row` is added.
pub open spec fn progress_after(rows: Seq<UserProgress>, row: UserProgress) -> Seq<UserProgress> {
    if has_progress(rows, row.user_id@, row.chapter_id@) {
        rows.map_values(
            |p: UserProgress|
                if p.user_id@ == row.user_id@ && p.chapter_id@ == row.chapter_id@ {
                    UserProgress { is_completed: row.is_completed, updated_at: row.updated_at, ..p }
                } else {
                    p
                },
        )
    } else {
        rows.push(row)
    }
}

/// Whether `user` may change the chapter `chapter` of the course `course`:
/// the user owns the course and the chapter is in it.
pub open spec fn may_edit(db: Db, user: Seq<char>, course: Seq<char>, chapter: Seq<char>) -> bool {
    db.owns(user, course) && db.has_chapter(course, chapter)
}

/// Sets the published flag of the chapter at `i`, whose id is unique.
fn set_flag(db: &mut Db, i: usize, flag: bool)
    requires
        old(db).wf(),
        i < old(db).chapters@.len(),
    ensures
        final(db).wf(),
        final(db).chapters@ == set_published(
            old(db).chapters@,
            old(db).chapters@[i as int].id@,
            flag,
        ),
        final(db).courses == old(db).courses,
        final(db).purchases == old(db).purchases,
        final(db).attachments == old(db).attachments,
        final(db).progress == old(db).progress,
        final(db).mux_data == old(db).mux_data,
{
    let ghost before = db.chapters@;
    db.chapters[i].is_published = flag;
    assert(db.chapters@ =~= set_published(before, before[i as int].id@, flag));
}

/// Sets the position of the chapter at `i`, whose id is unique.
fn set_position_at(db: &mut Db, i: usize, position: i32)
    requires
        old(db).wf(),
        i < old(db).chapters@.len(),
    ensures
        final(db).wf(),
        final(db).chapters@ == set_position(
            old(db).chapters@,
            old(db).chapters@[i as int].id@,
            position,
        ),
        final(db).courses == old(db).courses,
        final(db).purchases == old(db).purchases,
        final(db).attachments == old(db).attachments,
        final(db).progress == old(db).progress,
        final(db).mux_data == old(db).mux_data,
{
    let ghost before = db.chapters@;
    db.chapters[i].position = position;
    assert(db.chapters@ =~= set_position(before, before[i as int].id@, position));
}

/// The attachments of the course `course`, in the order of the store.
fn course_attachments(db: &Db, course: &String) -> (r: Vec<Attachment>)
    ensures
        r@ == attachments_of(db.attachments@, course@),
{
    let mut out: Vec<Attachment> = Vec::new();
    let mut i: usize = 0;
    while i < db.attachments.len()
        invariant
            i <= db.attachments@.len(),
            out@ == attachments_of(db.attachments@.take(i as int), course@),
        decreases db.attachments@.len() - i,
    {
        proof {
            assert(db.attachments@.take(i + 1).drop_last() =~= db.attachments@.take(i as int));
        }
        if db.attachments[i].course_id == *course {
            out.push(db.attachments[i].clone());
        }
        i = i + 1;
    }
    proof {
        assert(db.attachments@.take(i as int) =~= db.attachments@);
    }
    out
}

/// The published chapter of the course `course` that follows `position`.
fn next_chapter(db: &Db, course: &String, position: i32) -> (r: Option<Chapter>)
    ensures
        r == next_after(db.chapters@, course@, position),
{
    let mut best: Option<Chapter> = None;
    let mut i: usize = 0;
    while i < db.chapters.len()
        invariant
            i <= db.chapters@.len(),
            best == next_after(db.chapters@.take(i as int), course@, position),
        decreases db.chapters@.len() - i,
    {
        proof {
            assert(db.chapters@.take(i + 1).drop_last() =~= db.chapters@.take(i as int));
        }
        let c = &db.chapters[i];
        if c.course_id == *course && c.is_published && c.position > position {
            let better = match &best {
                Some(n) => c.position < n.position,
                None => true,
            };
            if better {
                best = Some(c.clone());
            }
        }
        i = i + 1;
    }
    proof {
        assert(db.chapters@.take(i as int) =~= db.chapters@);
    }
    best
}

impl Chapters {
    /// Publishes the chapter `chapter_id` of the course `course_id` for its
    /// owner `user_id`. The course's own flag is left as it is.
    pub fn publish(db: &mut Db, user_id: String, course_id: String, chapter_id: String) -> (r:
        Result<(), Error>)
        requires
            old(db).wf(),
        ensures
            final(db).wf(),
            !may_edit(*old(db), user_id@, course_id@, chapter_id@) ==> r == Err::<(), Error>(
                Error::NotFound,
            ),
            may_edit(*old(db), user_id@, course_id@, chapter_id@) ==> (r is Ok <==> publishable(
                *old(db),
                course_id@,
                chapter_id@,
            )),
            may_edit(*old(db), user_id@, course_id@, chapter_id@) && r is Err ==> r == Err::<
                (),
                Error,
            >(Error::ValidationFailed),
            r is Ok ==> final(db).chapters@ == set_published(old(db).chapters@, chapter_id@, true),
            r is Err ==> *final(db) == *old(db),
            final(db).courses == old(db).courses,
            final(db).purchases == old(db).purchases,
            final(db).attachments == old(db).attachments,
            final(db).progress == old(db).progress,
            final(db).mux_data == old(db).mux_data,
    {
        if !db.is_owner(&user_id, &course_id) {
            return Err(Error::NotFound);
        }
        let i = match db.find_chapter_in(&course_id, &chapter_id) {
            Some(i) => i,
            None => {
                return Err(Error::NotFound);
            },
        };
        let asset = db.find_asset(&chapter_id);
        if asset.is_none() || db.chapters[i].description.is_none()
            || db.chapters[i].video_url.is_none() {
            return Err(Error::ValidationFailed);
        }
        set_flag(db, i, true);
        Ok(())
    }

    /// Takes the chapter `chapter_id` of the course `course_id` off
    /// publication for its owner `user_id`; the course loses its own flag
    /// when no published chapter is left in it.
    pub fn unpublish(db: &mut Db, user_id: String, course_id: String, chapter_id: String) -> (r:
        Result<(), Error>)
        requires
            old(db).wf(),
        ensures
            final(db).wf(),
            r is Ok <==> may_edit(*old(db), user_id@, course_id@, chapter_id@),
            r is Err ==> r == Err::<(), Error>(Error::NotFound) && *final(db) == *old(db),
            r is Ok ==> final(db).chapters@ == set_published(
                old(db).chapters@,
                chapter_id@,
                false,
            ),
            r is Ok ==> final(db).courses@ == courses_after_recount(
                old(db).courses@,
                final(db).chapters@,
                course_id@,
            ),
            final(db).purchases == old(db).purchases,
            final(db).attachments == old(db).attachments,
            final(db).progress == old(db).progress,
            final(db).mux_data == old(db).mux_data,
    {
        if !db.is_owner(&user_id, &course_id) {
            return Err(Error::NotFound);
        }
        let i = match db.find_chapter_in(&course_id, &chapter_id) {
            Some(i) => i,
            None => {
                return Err(Error::NotFound);
            },
        };
        set_flag(db, i, false);
        db.recount_course(&course_id);
        Ok(())
    }

    /// Deletes the chapter `chapter_id` of the course `course_id` for its
    /// owner `user_id`, with its video asset, and clears the course's flag
    /// when no published chapter is left in it. Where the chapter has a video
    /// URL and an asset, the result holds the provider's id of that asset,
    /// which the caller is to delete remotely.
    pub fn delete(db: &mut Db, user_id: String, course_id: String, chapter_id: String) -> (r:
        Result<Option<String>, Error>)
        requires
            old(db).wf(),
        ensures
            final(db).wf(),
            r is Ok <==> may_edit(*old(db), user_id@, course_id@, chapter_id@),
            r is Err ==> r == Err::<Option<String>, Error>(Error::NotFound) && *final(db)
                == *old(db),
            r is Ok ==> exists|i: int|
                0 <= i < old(db).chapters@.len() && #[trigger] old(db).chapters@[i].id@
                    == chapter_id@ && final(db).chapters@ == old(db).chapters@.remove(i),
            r is Ok ==> !has_asset(final(db).mux_data@, chapter_id@),
            r is Ok && !has_asset(old(db).mux_data@, chapter_id@) ==> final(db).mux_data
                == old(db).mux_data,
            r is Ok && has_asset(old(db).mux_data@, chapter_id@) ==> exists|j: int|
                0 <= j < old(db).mux_data@.len() && #[trigger] old(db).mux_data@[j].chapter_id@
                    == chapter_id@ && final(db).mux_data@ == old(db).mux_data@.remove(j)
                    && (r == Ok::<Option<String>, Error>(None) <==> !chapter_has_url(
                    old(db).chapters@,
                    chapter_id@,
                )) && (r != Ok::<Option<String>, Error>(None) ==> r == Ok::<
                    Option<String>,
                    Error,
                >(Some(old(db).mux_data@[j].asset_id))),
            r is Ok && !has_asset(old(db).mux_data@, chapter_id@) ==> r == Ok::<
                Option<String>,
                Error,
            >(None),
            r is Ok ==> final(db).courses@ == courses_after_recount(
                old(db).courses@,
                final(db).chapters@,
                course_id@,
            ),
            final(db).purchases == old(db).purchases,
            final(db).attachments == old(db).attachments,
            final(db).progress == old(db).progress,
    {
        if !db.is_owner(&user_id, &course_id) {
            return Err(Error::NotFound);
        }
        let i = match db.find_chapter_in(&course_id, &chapter_id) {
            Some(i) => i,
            None => {
                return Err(Error::NotFound);
            },
        };
        let has_url = db.chapters[i].video_url.is_some();
        let removed = db.remove_chapter(i);
        let mut remote: Option<String> = None;
        match db.find_asset(&chapter_id) {
            Some(j) => {
                let asset = db.remove_asset(j);
                if has_url {
                    remote = Some(asset.asset_id);
                }
            },
            None => {},
        }
        proof {
            assert(old(db).chapters@[i as int].id@ == chapter_id@);
            assert(has_url == chapter_has_url(old(db).chapters@, chapter_id@));
        }
        db.recount_course(&course_id);
        Ok(remote)
    }

    /// Records whether `user_id` completed `chapter_id`, at time `now`. An
    /// existing row of that user and chapter is updated; otherwise a row with
    /// the fresh id `new_id` is added.
    pub fn update_progress(
        db: &mut Db,
        user_id: String,
        chapter_id: String,
        is_completed: bool,
        new_id: String,
        now: i64,
    ) -> (r: Result<(), Error>)
        requires
            old(db).wf(),
        ensures
            final(db).wf(),
            r == Ok::<(), Error>(()),
            final(db).progress@ == progress_after(
                old(db).progress@,
                UserProgress {
                    id: new_id,
                    user_id,
                    chapter_id,
                    is_completed,
                    created_at: now,
                    updated_at: now,
                },
            ),
            final(db).courses == old(db).courses,
            final(db).chapters == old(db).chapters,
            final(db).purchases == old(db).purchases,
            final(db).attachments == old(db).attachments,
            final(db).mux_data == old(db).mux_data,
    {
        let ghost row = UserProgress {
            id: new_id,
            user_id,
            chapter_id,
            is_completed,
            created_at: now,
            updated_at: now,
        };
        let ghost before = db.progress@;
        match db.find_progress(&user_id, &chapter_id) {
            Some(i) => {
                db.progress[i].is_completed = is_completed;
                db.progress[i].updated_at = now;
                assert(has_progress(before, user_id@, chapter_id@));
                assert(db.progress@ =~= progress_after(before, row));
            },
            None => {
                db.progress.push(
                    UserProgress {
                        id: new_id,
                        user_id,
                        chapter_id,
                        is_completed,
                        created_at: now,
                        updated_at: now,
                    },
                );
                assert(db.progress@ =~= progress_after(before, row));
            },
        }
        Ok(())
    }

    /// Writes the positions of `list`, in its order, for the owner `user_id`
    /// of the course `course_id`, and returns the chapters of the course
    /// sorted by position. A chapter of the list may be of any course; one
    /// that does not exist stops the writes there with `NotFound`.
    pub fn reorder(db: &mut Db, user_id: String, course_id: String, list: Vec<ReorderData>) -> (r:
        Result<Vec<Chapter>, Error>)
        requires
            old(db).wf(),
        ensures
            final(db).wf(),
            r is Ok <==> old(db).owns(user_id@, course_id@) && forall|k: int|
                0 <= k < list@.len() ==> has_id(old(db).chapters@, #[trigger] list@[k].id@),
            r is Err ==> r == Err::<Vec<Chapter>, Error>(Error::NotFound),
            !old(db).owns(user_id@, course_id@) ==> *final(db) == *old(db),
            match r {
                Ok(v) => final(db).chapters@ == reordered(old(db).chapters@, list@) && v@
                    == course_listing(final(db).chapters@, course_id@),
                Err(_) => exists|m: int|
                    0 <= m <= list@.len() && final(db).chapters@ == reordered(
                        old(db).chapters@,
                        list@.take(m),
                    ),
            },
            final(db).courses == old(db).courses,
            final(db).purchases == old(db).purchases,
            final(db).attachments == old(db).attachments,
            final(db).progress == old(db).progress,
            final(db).mux_data == old(db).mux_data,
    {
        if !db.is_owner(&user_id, &course_id) {
            proof {
                assert(list@.take(0) =~= Seq::<ReorderData>::empty());
            }
            return Err(Error::NotFound);
        }
        let mut i: usize = 0;
        while i < list.len()
            invariant
                i <= list@.len(),
                db.wf(),
                old(db).owns(user_id@, course_id@),
                db.chapters@.len() == old(db).chapters@.len(),
                forall|k: int|
                    0 <= k < db.chapters@.len() ==> #[trigger] db.chapters@[k].id
                        == old(db).chapters@[k].id,
                db.chapters@ == reordered(old(db).chapters@, list@.take(i as int)),
                forall|k: int| 0 <= k < i ==> has_id(old(db).chapters@, #[trigger] list@[k].id@),
                db.courses == old(db).courses,
                db.purchases == old(db).purchases,
                db.attachments == old(db).attachments,
                db.progress == old(db).progress,
                db.mux_data == old(db).mux_data,
            decreases list@.len() - i,
        {
            let idx = match db.find_chapter(&list[i].id) {
                Some(idx) => idx,
                None => {
                    proof {
                        assert(!has_id(old(db).chapters@, list@[i as int].id@)) by {
                            if has_id(old(db).chapters@, list@[i as int].id@) {
                                let w = choose|w: int|
                                    0 <= w < old(db).chapters@.len()
                                        && #[trigger] old(db).chapters@[w].id@ == list@[i as int].id@;
                                assert(db.chapters@[w].id == old(db).chapters@[w].id);
                            }
                        }
                    }
                    return Err(Error::NotFound);
                },
            };
            proof {
                assert(list@.take(i + 1).drop_last() =~= list@.take(i as int));
                assert(old(db).chapters@[idx as int].id == db.chapters@[idx as int].id);
            }
            set_position_at(db, idx, list[i].position);
            i = i + 1;
        }
        proof {
            assert(list@.take(i as int) =~= list@);
        }
        Ok(db.listing(&course_id))
    }

    /// Adds a chapter titled `title`, with the fresh id `new_id`, to the
    /// course `course_id` of its owner `user_id`, at time `now`, and returns
    /// the chapters of the course sorted by position. The new chapter stands
    /// one past the lowest position in the course, or at 1 in an empty one.
    pub fn create(
        db: &mut Db,
        user_id: String,
        course_id: String,
        title: String,
        new_id: String,
        now: i64,
    ) -> (r: Result<Vec<Chapter>, Error>)
        requires
            old(db).wf(),
        ensures
            final(db).wf(),
            !old(db).owns(user_id@, course_id@) ==> r == Err::<Vec<Chapter>, Error>(
                Error::NotFound,
            ),
            old(db).owns(user_id@, course_id@) && (has_id(old(db).chapters@, new_id@)
                || lowest_position(old(db).chapters@, course_id@) == Some(i32::MAX)) ==> r
                == Err::<Vec<Chapter>, Error>(Error::StoreFailure),
            r is Err ==> *final(db) == *old(db),
            r is Ok <==> old(db).owns(user_id@, course_id@) && !has_id(old(db).chapters@, new_id@)
                && lowest_position(old(db).chapters@, course_id@) != Some(i32::MAX),
            match r {
                Ok(v) => final(db).chapters@ == old(db).chapters@.push(
                    Chapter {
                        id: new_id,
                        course_id,
                        title,
                        description: None,
                        video_url: None,
                        position: new_position(old(db).chapters@, course_id@) as i32,
                        is_published: false,
                        is_free: false,
                        created_at: now,
                        updated_at: now,
                    },
                ) && v@ == course_listing(final(db).chapters@, course_id@),
                Err(_) => true,
            },
            final(db).courses == old(db).courses,
            final(db).purchases == old(db).purchases,
            final(db).attachments == old(db).attachments,
            final(db).progress == old(db).progress,
            final(db).mux_data == old(db).mux_data,
    {
        if !db.is_owner(&user_id, &course_id) {
            return Err(Error::NotFound);
        }
        if db.find_chapter(&new_id).is_some() {
            return Err(Error::StoreFailure);
        }
        let position: i32 = match db.first_position(&course_id) {
            Some(p) => {
                if p == i32::MAX {
                    return Err(Error::StoreFailure);
                }
                p + 1
            },
            None => 1,
        };
        let chapter = Chapter {
            id: new_id,
            course_id: course_id.clone(),
            title,
            description: None,
            video_url: None,
            position,
            is_published: false,
            is_free: false,
            created_at: now,
            updated_at: now,
        };
        db.chapters.push(chapter);
        Ok(db.listing(&course_id))
    }

    /// What `user_id` sees of the published chapter `chapter_id` of the
    /// published course `course_id`.
    pub fn get(db: &Db, user_id: String, course_id: String, chapter_id: String) -> (r: Result<
        ChapterDetails,
        Error,
    >)
        requires
            db.wf(),
        ensures
            r is Ok <==> (exists|i: int|
                0 <= i < db.courses@.len() && #[trigger] db.courses@[i].id@ == course_id@
                    && db.courses@[i].is_published) && (exists|i: int|
                0 <= i < db.chapters@.len() && #[trigger] db.chapters@[i].id@ == chapter_id@
                    && db.chapters@[i].is_published),
            r is Err ==> r == Err::<ChapterDetails, Error>(Error::NotFound),
            r matches Ok(d) ==> {
                &&& d.chapter matches Some(c) && exists|i: int|
                    0 <= i < db.chapters@.len() && #[trigger] db.chapters@[i] == c && c.id@
                        == chapter_id@
                &&& d.course_price matches Some(p) && exists|i: int|
                    0 <= i < db.courses@.len() && #[trigger] db.courses@[i].id@ == course_id@
                        && p.price == db.courses@[i].price
                &&& match d.purchase {
                    Some(p) => exists|i: int|
                        0 <= i < db.purchases@.len() && #[trigger] db.purchases@[i] == p
                            && p.user_id@ == user_id@ && p.course_id@ == course_id@,
                    None => forall|i: int|
                        0 <= i < db.purchases@.len() ==> !(#[trigger] db.purchases@[i].user_id@
                            == user_id@ && db.purchases@[i].course_id@ == course_id@),
                }
                &&& match d.user_progress {
                    Some(p) => exists|i: int|
                        0 <= i < db.progress@.len() && #[trigger] db.progress@[i] == p
                            && p.user_id@ == user_id@ && p.chapter_id@ == chapter_id@,
                    None => forall|i: int|
                        0 <= i < db.progress@.len() ==> !(#[trigger] db.progress@[i].user_id@
                            == user_id@ && db.progress@[i].chapter_id@ == chapter_id@),
                }
                &&& d.attachments is Some
                &&& {
                    let open = d.chapter.unwrap().is_free || d.purchase is Some;
                    if open {
                        &&& d.attachments.unwrap()@ == attachments_of(db.attachments@, course_id@)
                        &&& d.next_chapter == next_after(
                            db.chapters@,
                            course_id@,
                            d.chapter.unwrap().position,
                        )
                        &&& match d.mux_data {
                            Some(m) => exists|i: int|
                                0 <= i < db.mux_data@.len() && #[trigger] db.mux_data@[i] == m
                                    && m.chapter_id@ == chapter_id@,
                            None => !has_asset(db.mux_data@, chapter_id@),
                        }
                    } else {
                        &&& d.attachments.unwrap()@.len() == 0
                        &&& d.next_chapter is None
                        &&& d.mux_data is None
                    }
                }
            },
    {
        let ci = match db.find_course(&course_id) {
            Some(ci) => ci,
            None => {
                return Err(Error::NotFound);
            },
        };
        if !db.courses[ci].is_published {
            return Err(Error::NotFound);
        }
        let hi = match db.find_chapter(&chapter_id) {
            Some(hi) => hi,
            None => {
                return Err(Error::NotFound);
            },
        };
        if !db.chapters[hi].is_published {
            return Err(Error::NotFound);
        }
        let chapter = db.chapters[hi].clone();
        let purchase = match db.find_purchase(&user_id, &course_id) {
            Some(k) => Some(db.purchases[k].clone()),
            None => None,
        };
        let user_progress = match db.find_progress(&user_id, &chapter_id) {
            Some(k) => Some(db.progress[k].clone()),
            None => None,
        };
        let mut attachments: Vec<Attachment> = Vec::new();
        let mut mux: Option<mux_data::Model> = None;
        let mut next: Option<Chapter> = None;
        if chapter.is_free || purchase.is_some() {
            attachments = course_attachments(db, &course_id);
            mux = match db.find_asset(&chapter_id) {
                Some(k) => Some(db.mux_data[k].clone()),
                None => None,
            };
            next = next_chapter(db, &course_id, chapter.position);
        }
        Ok(
            ChapterDetails {
                chapter: Some(chapter),
                course_price: Some(ChapterPrice { price: db.courses[ci].price }),
                mux_data: mux,
                attachments: Some(attachments),
                next_chapter: next,
                user_progress,
                purchase,
            },
        )
    }
}

} // verus!
