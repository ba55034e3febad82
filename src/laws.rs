use crate::chapters::{has_progress, progress_after};
use crate::records::{Chapter, Course, UserProgress};
use crate::update::{advanced, recorded, AssetReply, ChapterUpdate, UpdateStep};
use crate::store::{
    course_listing, courses_after_recount, has_asset, has_published, insert_by_position,
    lowest_position, Db,
};
use vstd::prelude::*;

verus! {

/// After the chapters of a course were recounted, the course is unpublished
/// when none of its chapters is published, and keeps its flag otherwise; no
/// other course changes.
pub proof fn recount_clears_flag_iff_none_published(
    courses: Seq<Course>,
    chs: Seq<Chapter>,
    course: Seq<char>,
)
    ensures
        courses_after_recount(courses, chs, course).len() == courses.len(),
        !has_published(chs, course) ==> forall|i: int|
            0 <= i < courses.len() && #[trigger] courses[i].id@ == course
                ==> !courses_after_recount(courses, chs, course)[i].is_published,
        forall|i: int|
            0 <= i < courses.len() ==> (#[trigger] courses_after_recount(courses, chs, course)[i]
                == courses[i] <==> (has_published(chs, course) || courses[i].id@ != course
                || !courses[i].is_published)),
{
}

/// Recording the progress of one user in one chapter twice leaves exactly
/// one row for them, which holds the completion of the second call.
pub proof fn progress_recorded_twice(db: Db, first: UserProgress, second: UserProgress)
    requires
        db.wf(),
        second.user_id@ == first.user_id@,
        second.chapter_id@ == first.chapter_id@,
    ensures
        ({
            let rows = progress_after(progress_after(db.progress@, first), second);
            &&& exists|i: int|
                0 <= i < rows.len() && #[trigger] rows[i].user_id@ == first.user_id@
                    && rows[i].chapter_id@ == first.chapter_id@ && rows[i].is_completed
                    == second.is_completed
            &&& forall|i: int, j: int|
                0 <= i < rows.len() && 0 <= j < rows.len() && #[trigger] rows[i].user_id@
                    == first.user_id@ && rows[i].chapter_id@ == first.chapter_id@
                    && #[trigger] rows[j].user_id@ == first.user_id@ && rows[j].chapter_id@
                    == first.chapter_id@ ==> i == j
        }),
{
    let u = first.user_id@;
    let c = first.chapter_id@;
    let rows0 = db.progress@;
    let rows1 = progress_after(rows0, first);
    let rows2 = progress_after(rows1, second);
    if has_progress(rows0, u, c) {
        let w = choose|w: int| 0 <= w < rows0.len() && #[trigger] rows0[w].user_id@ == u && rows0[w].chapter_id@ == c;
        assert(rows1[w].user_id@ == u && rows1[w].chapter_id@ == c);
        assert(rows2[w].user_id@ == u);
    } else {
        let n = rows0.len() as int;
        assert(rows1[n].user_id@ == u && rows1[n].chapter_id@ == c);
        assert(rows2[n].user_id@ == u);
        assert forall|i: int| 0 <= i < rows1.len() && #[trigger] rows1[i].user_id@ == u && rows1[i].chapter_id@ == c implies i == n by {
            if i < n {
                assert(rows1[i] == rows0[i]);
            }
        }
    }
}

/// The lowest position of a course is that of one of its chapters, and no
/// chapter of the course stands below it; a course without chapters has
/// none. A new chapter thus goes one past the lowest, not past the highest.
pub proof fn lowest_position_is_minimum(chs: Seq<Chapter>, course: Seq<char>)
    ensures
        lowest_position(chs, course) is None <==> forall|i: int|
            0 <= i < chs.len() ==> #[trigger] chs[i].course_id@ != course,
        lowest_position(chs, course) matches Some(p) ==> (exists|i: int|
            0 <= i < chs.len() && #[trigger] chs[i].course_id@ == course && chs[i].position == p)
            && forall|i: int|
            0 <= i < chs.len() && #[trigger] chs[i].course_id@ == course ==> p <= chs[i].position,
    decreases chs.len(),
{
    if chs.len() > 0 {
        let d = chs.drop_last();
        let n = chs.len() - 1;
        lowest_position_is_minimum(d, course);
        assert forall|i: int| 0 <= i < d.len() implies #[trigger] d[i] == chs[i] by {}
        assert(chs[n] == chs.last());
        let rest = lowest_position(d, course);
        if chs.last().course_id@ != course {
            assert forall|i: int| 0 <= i < chs.len() && #[trigger] chs[i].course_id@ == course implies i < n by {}
            if rest is Some {
                let p = rest.unwrap();
                let w = choose|w: int| 0 <= w < d.len() && #[trigger] d[w].course_id@ == course && d[w].position == p;
                assert(chs[w].course_id@ == course);
                assert forall|i: int| 0 <= i < chs.len() && #[trigger] chs[i].course_id@ == course implies p <= chs[i].position by {
                    assert(d[i].course_id@ == course);
                }
            } else {
                assert forall|i: int| 0 <= i < chs.len() implies #[trigger] chs[i].course_id@ != course by {
                    if i < n {
                        assert(d[i].course_id@ != course);
                    }
                }
            }
        } else {
            assert(chs[n].course_id@ == course);
            if rest is Some {
                let p = rest.unwrap();
                let w = choose|w: int| 0 <= w < d.len() && #[trigger] d[w].course_id@ == course && d[w].position == p;
                assert(chs[w].course_id@ == course);
                let m = lowest_position(chs, course).unwrap();
                if chs.last().position < p {
                    assert(chs[n].position == m);
                } else {
                    assert(chs[w].position == m);
                }
                assert forall|i: int| 0 <= i < chs.len() && #[trigger] chs[i].course_id@ == course implies m <= chs[i].position by {
                    if i < n {
                        assert(d[i].course_id@ == course);
                    }
                }
            } else {
                assert forall|i: int| 0 <= i < chs.len() && #[trigger] chs[i].course_id@ == course implies i == n by {
                    if i < n {
                        assert(d[i].course_id@ != course);
                    }
                }
            }
        }
    }
}

/// `s` with `c` inserted by position is sorted when `s` is.
proof fn lemma_insert_sorted(s: Seq<Chapter>, c: Chapter)
    requires
        forall|i: int, j: int| 0 <= i < j < s.len() ==> #[trigger] s[i].position <= #[trigger] s[j].position,
    ensures
        insert_by_position(s, c).len() == s.len() + 1,
        forall|i: int, j: int|
            0 <= i < j < s.len() + 1 ==> #[trigger] insert_by_position(s, c)[i].position
                <= #[trigger] insert_by_position(s, c)[j].position,
        forall|i: int|
            0 <= i < s.len() + 1 ==> #[trigger] insert_by_position(s, c)[i] == c || s.contains(
                insert_by_position(s, c)[i],
            ),
    decreases s.len(),
{
    if s.len() == 0 {
    } else if s.last().position <= c.position {
        let r = s.push(c);
        assert forall|i: int| 0 <= i < s.len() + 1 implies #[trigger] r[i] == c || s.contains(r[i]) by {
            if i < s.len() {
                assert(r[i] == s[i]);
            }
        }
    } else {
        let d = s.drop_last();
        lemma_insert_sorted(d, c);
        let t = insert_by_position(d, c);
        let r = t.push(s.last());
        assert forall|i: int| 0 <= i < t.len() implies #[trigger] t[i].position <= s.last().position by {
            if t[i] != c {
                let k = choose|k: int| 0 <= k < d.len() && d[k] == t[i];
                assert(s[k] == d[k]);
            }
        }
        assert forall|i: int| 0 <= i < s.len() + 1 implies #[trigger] r[i] == c || s.contains(r[i]) by {
            if i < t.len() && r[i] != c {
                let k = choose|k: int| 0 <= k < d.len() && d[k] == t[i];
                assert(s[k] == d[k]);
            } else if i == t.len() {
                assert(s[s.len() - 1] == s.last());
            }
        }
    }
}

/// The chapters listed for a course are of that course, sorted by position.
pub proof fn listing_is_sorted(chs: Seq<Chapter>, course: Seq<char>)
    ensures
        forall|i: int, j: int|
            0 <= i < j < course_listing(chs, course).len() ==> #[trigger] course_listing(
                chs,
                course,
            )[i].position <= #[trigger] course_listing(chs, course)[j].position,
        forall|i: int|
            0 <= i < course_listing(chs, course).len() ==> (#[trigger] course_listing(
                chs,
                course,
            )[i]).course_id@ == course,
    decreases chs.len(),
{
    if chs.len() > 0 {
        let d = chs.drop_last();
        listing_is_sorted(d, course);
        if chs.last().course_id@ == course {
            let prev = course_listing(d, course);
            lemma_insert_sorted(prev, chs.last());
            let r = insert_by_position(prev, chs.last());
            assert forall|i: int| 0 <= i < r.len() implies (#[trigger] r[i]).course_id@ == course by {
                if r[i] != chs.last() {
                    let k = choose|k: int| 0 <= k < prev.len() && prev[k] == r[i];
                }
            }
        }
    }
}

/// A chapter has at most one video asset, so once an asset of it is
/// recorded, it has exactly one.
pub proof fn one_asset_per_chapter(db: Db, chapter: Seq<char>)
    requires
        db.wf(),
        has_asset(db.mux_data@, chapter),
    ensures
        exists|i: int|
            0 <= i < db.mux_data@.len() && #[trigger] db.mux_data@[i].chapter_id@ == chapter,
        forall|i: int, j: int|
            0 <= i < db.mux_data@.len() && 0 <= j < db.mux_data@.len()
                && #[trigger] db.mux_data@[i].chapter_id@ == chapter
                && #[trigger] db.mux_data@[j].chapter_id@ == chapter ==> i == j,
{
    assert forall|i: int, j: int|
        0 <= i < db.mux_data@.len() && 0 <= j < db.mux_data@.len()
            && #[trigger] db.mux_data@[i].chapter_id@ == chapter
            && #[trigger] db.mux_data@[j].chapter_id@ == chapter implies i == j by {
        if i < j {
            assert(db.mux_data@[i].chapter_id@ != db.mux_data@[j].chapter_id@);
        } else if j < i {
            assert(db.mux_data@[j].chapter_id@ != db.mux_data@[i].chapter_id@);
        }
    }
}

/// Setting a chapter's video URL again: the step that asks for the new
/// asset hands out the provider's id of the old one, to be deleted before
/// the new one is created, and once the new asset is recorded the chapter
/// has exactly one asset row, the new one.
pub proof fn video_url_set_again_keeps_one_asset(
    s0: ChapterUpdate,
    db0: Db,
    s1: ChapterUpdate,
    db1: Db,
    delete_asset: Option<String>,
    source_url: String,
    reply: AssetReply,
    row_id: String,
    db2: Db,
)
    requires
        s0.wf(),
        db0.wf(),
        advanced(s0, db0, s1, db1, Ok(UpdateStep::CreateAsset { delete_asset, source_url })),
        recorded(s1, db1, reply, row_id, db2, Ok(())),
    ensures
        has_asset(db0.mux_data@, s0.chapter_id@) ==> exists|i: int|
            0 <= i < db0.mux_data@.len() && #[trigger] db0.mux_data@[i].chapter_id@
                == s0.chapter_id@ && delete_asset == Some(db0.mux_data@[i].asset_id),
        !has_asset(db0.mux_data@, s0.chapter_id@) ==> delete_asset is None,
        exists|i: int|
            0 <= i < db2.mux_data@.len() && #[trigger] db2.mux_data@[i].chapter_id@
                == s0.chapter_id@ && db2.mux_data@[i].asset_id == reply.asset_id,
        forall|i: int, j: int|
            0 <= i < db2.mux_data@.len() && 0 <= j < db2.mux_data@.len()
                && #[trigger] db2.mux_data@[i].chapter_id@ == s0.chapter_id@
                && #[trigger] db2.mux_data@[j].chapter_id@ == s0.chapter_id@ ==> i == j,
{
    let ch = s0.chapter_id@;
    if has_asset(db0.mux_data@, ch) {
        let w = choose|w: int| 0 <= w < db0.mux_data@.len() && #[trigger] db0.mux_data@[w].chapter_id@ == ch;
        assert(db0.mux_data@[w].chapter_id@ == ch);
    }
    let n = db2.mux_data@.len() - 1;
    assert(db2.mux_data@[n].chapter_id@ == ch);
    one_asset_per_chapter(db2, ch);
}

} // verus!
