use crate::mux_data;
use crate::records::{Attachment, Chapter, Course, Purchase, UserProgress};
use vstd::prelude::*;

verus! {

/// The records the chapter service reads and writes, each kind in the order
/// the store returns it by default.
pub struct Db {
    pub courses: Vec<Course>,
    pub chapters: Vec<Chapter>,
    pub purchases: Vec<Purchase>,
    pub attachments: Vec<Attachment>,
    pub progress: Vec<UserProgress>,
    pub mux_data: Vec<mux_data::Model>,
}

/// Whether some chapter of `course` in `chs` is published.
pub open spec fn has_published(chs: Seq<Chapter>, course: Seq<char>) -> bool {
    exists|i: int| 0 <= i < chs.len() && #[trigger] chs[i].course_id@ == course && chs[i].is_published
}

/// Whether some asset in `assets` belongs to `chapter`.
pub open spec fn has_asset(assets: Seq<mux_data::Model>, chapter: Seq<char>) -> bool {
    exists|i: int| 0 <= i < assets.len() && #[trigger] assets[i].chapter_id@ == chapter
}

/// `s`, sorted by position, with `c` put after every chapter whose position
/// is not above its own.
pub open spec fn insert_by_position(s: Seq<Chapter>, c: Chapter) -> Seq<Chapter>
    decreases s.len(),
{
    if s.len() == 0 {
        seq![c]
    } else if s.last().position <= c.position {
        s.push(c)
    } else {
        insert_by_position(s.drop_last(), c).push(s.last())
    }
}

/// The chapters of the course `course` in `chs`, sorted by position; those
/// of equal position keep the order of `chs`.
pub open spec fn course_listing(chs: Seq<Chapter>, course: Seq<char>) -> Seq<Chapter>
    decreases chs.len(),
{
    if chs.len() == 0 {
        Seq::<Chapter>::empty()
    } else if chs.last().course_id@ == course {
        insert_by_position(course_listing(chs.drop_last(), course), chs.last())
    } else {
        course_listing(chs.drop_last(), course)
    }
}

/// The lowest position of a chapter of the course `course` in `chs`.
pub open spec fn lowest_position(chs: Seq<Chapter>, course: Seq<char>) -> Option<i32>
    decreases chs.len(),
{
    if chs.len() == 0 {
        None
    } else {
        let rest = lowest_position(chs.drop_last(), course);
        if chs.last().course_id@ != course {
            rest
        } else {
            match rest {
                Some(p) => Some(if chs.last().position < p { chs.last().position } else { p }),
                None => Some(chs.last().position),
            }
        }
    }
}

/// Inserting `c` at `k` is inserting it by position, when `k` follows the
/// chapters whose position is not above that of `c` and precedes the others.
proof fn lemma_insert_at(s: Seq<Chapter>, c: Chapter, k: int)
    requires
        0 <= k <= s.len(),
        forall|j: int| k <= j < s.len() ==> #[trigger] s[j].position > c.position,
        k == 0 || s[k - 1].position <= c.position,
    ensures
        insert_by_position(s, c) == s.insert(k, c),
    decreases s.len(),
{
    if s.len() == 0 {
        assert(s.insert(k, c) =~= seq![c]);
    } else if s.last().position <= c.position {
        assert(s.insert(k, c) =~= s.push(c));
    } else {
        let d = s.drop_last();
        lemma_insert_at(d, c, k);
        assert(s.insert(k, c) =~= d.insert(k, c).push(s.last()));
    }
}

/// `courses` with the published flag of the course `course` cleared.
pub open spec fn unpublish_course(courses: Seq<Course>, course: Seq<char>) -> Seq<Course> {
    courses.map_values(
        |c: Course|
            if c.id@ == course {
                Course { is_published: false, ..c }
            } else {
                c
            },
    )
}

/// The courses after the published chapters of `course` were counted in
/// `chs`: the course loses its flag when none is left.
pub open spec fn courses_after_recount(
    courses: Seq<Course>,
    chs: Seq<Chapter>,
    course: Seq<char>,
) -> Seq<Course> {
    if has_published(chs, course) {
        courses
    } else {
        unpublish_course(courses, course)
    }
}

impl Db {
    /// Keys are unique: course ids, chapter ids, the chapter of an asset,
    /// and the user and chapter of a progress row.
    pub open spec fn wf(&self) -> bool {
        &&& forall|i: int, j: int|
            0 <= i < j < self.courses@.len() ==> #[trigger] self.courses@[i].id@
                != #[trigger] self.courses@[j].id@
        &&& forall|i: int, j: int|
            0 <= i < j < self.chapters@.len() ==> #[trigger] self.chapters@[i].id@
                != #[trigger] self.chapters@[j].id@
        &&& forall|i: int, j: int|
            0 <= i < j < self.mux_data@.len() ==> #[trigger] self.mux_data@[i].chapter_id@
                != #[trigger] self.mux_data@[j].chapter_id@
        &&& forall|i: int, j: int|
            0 <= i < j < self.progress@.len() ==> !(#[trigger] self.progress@[i].user_id@
                == #[trigger] self.progress@[j].user_id@ && self.progress@[i].chapter_id@
                == self.progress@[j].chapter_id@)
    }

    /// Whether `user` owns the course `course`.
    pub open spec fn owns(&self, user: Seq<char>, course: Seq<char>) -> bool {
        exists|i: int|
            0 <= i < self.courses@.len() && #[trigger] self.courses@[i].id@ == course
                && self.courses@[i].user_id@ == user
    }

    /// Whether the chapter `chapter` exists in the course `course`.
    pub open spec fn has_chapter(&self, course: Seq<char>, chapter: Seq<char>) -> bool {
        exists|i: int|
            0 <= i < self.chapters@.len() && #[trigger] self.chapters@[i].id@ == chapter
                && self.chapters@[i].course_id@ == course
    }

    /// An empty store.
    pub fn new() -> (r: Db)
        ensures
            r.wf(),
            r.courses@.len() == 0,
            r.chapters@.len() == 0,
            r.purchases@.len() == 0,
            r.attachments@.len() == 0,
            r.progress@.len() == 0,
            r.mux_data@.len() == 0,
    {
        Db {
            courses: Vec::new(),
            chapters: Vec::new(),
            purchases: Vec::new(),
            attachments: Vec::new(),
            progress: Vec::new(),
            mux_data: Vec::new(),
        }
    }

    /// Whether `user` owns the course `course`.
    pub fn is_owner(&self, user: &String, course: &String) -> (r: bool)
        ensures
            r == self.owns(user@, course@),
    {
        let mut i: usize = 0;
        while i < self.courses.len()
            invariant
                i <= self.courses@.len(),
                forall|k: int|
                    0 <= k < i ==> !(#[trigger] self.courses@[k].id@ == course@
                        && self.courses@[k].user_id@ == user@),
            decreases self.courses@.len() - i,
        {
            if self.courses[i].id == *course && self.courses[i].user_id == *user {
                return true;
            }
            i = i + 1;
        }
        false
    }

    /// The index of the course `id`.
    pub fn find_course(&self, id: &String) -> (r: Option<usize>)
        ensures
            match r {
                Some(i) => i < self.courses@.len() && self.courses@[i as int].id@ == id@,
                None => forall|k: int|
                    0 <= k < self.courses@.len() ==> #[trigger] self.courses@[k].id@ != id@,
            },
    {
        let mut i: usize = 0;
        while i < self.courses.len()
            invariant
                i <= self.courses@.len(),
                forall|k: int| 0 <= k < i ==> #[trigger] self.courses@[k].id@ != id@,
            decreases self.courses@.len() - i,
        {
            if self.courses[i].id == *id {
                return Some(i);
            }
            i = i + 1;
        }
        None
    }

    /// The index of the chapter `id`, in whatever course.
    pub fn find_chapter(&self, id: &String) -> (r: Option<usize>)
        ensures
            match r {
                Some(i) => i < self.chapters@.len() && self.chapters@[i as int].id@ == id@,
                None => forall|k: int|
                    0 <= k < self.chapters@.len() ==> #[trigger] self.chapters@[k].id@ != id@,
            },
    {
        let mut i: usize = 0;
        while i < self.chapters.len()
            invariant
                i <= self.chapters@.len(),
                forall|k: int| 0 <= k < i ==> #[trigger] self.chapters@[k].id@ != id@,
            decreases self.chapters@.len() - i,
        {
            if self.chapters[i].id == *id {
                return Some(i);
            }
            i = i + 1;
        }
        None
    }

    /// The index of the chapter `id` of the course `course`.
    pub fn find_chapter_in(&self, course: &String, id: &String) -> (r: Option<usize>)
        ensures
            match r {
                Some(i) => i < self.chapters@.len() && self.chapters@[i as int].id@ == id@
                    && self.chapters@[i as int].course_id@ == course@,
                None => !self.has_chapter(course@, id@),
            },
    {
        let mut i: usize = 0;
        while i < self.chapters.len()
            invariant
                i <= self.chapters@.len(),
                forall|k: int|
                    0 <= k < i ==> !(#[trigger] self.chapters@[k].id@ == id@
                        && self.chapters@[k].course_id@ == course@),
            decreases self.chapters@.len() - i,
        {
            if self.chapters[i].id == *id && self.chapters[i].course_id == *course {
                return Some(i);
            }
            i = i + 1;
        }
        None
    }

    /// The index of the asset of the chapter `chapter`.
    pub fn find_asset(&self, chapter: &String) -> (r: Option<usize>)
        ensures
            match r {
                Some(i) => i < self.mux_data@.len() && self.mux_data@[i as int].chapter_id@
                    == chapter@,
                None => !has_asset(self.mux_data@, chapter@),
            },
    {
        let mut i: usize = 0;
        while i < self.mux_data.len()
            invariant
                i <= self.mux_data@.len(),
                forall|k: int| 0 <= k < i ==> #[trigger] self.mux_data@[k].chapter_id@ != chapter@,
            decreases self.mux_data@.len() - i,
        {
            if self.mux_data[i].chapter_id == *chapter {
                return Some(i);
            }
            i = i + 1;
        }
        None
    }

    /// The index of the progress row of `user` in `chapter`.
    pub fn find_progress(&self, user: &String, chapter: &String) -> (r: Option<usize>)
        ensures
            match r {
                Some(i) => i < self.progress@.len() && self.progress@[i as int].user_id@ == user@
                    && self.progress@[i as int].chapter_id@ == chapter@,
                None => forall|k: int|
                    0 <= k < self.progress@.len() ==> !(#[trigger] self.progress@[k].user_id@
                        == user@ && self.progress@[k].chapter_id@ == chapter@),
            },
    {
        let mut i: usize = 0;
        while i < self.progress.len()
            invariant
                i <= self.progress@.len(),
                forall|k: int|
                    0 <= k < i ==> !(#[trigger] self.progress@[k].user_id@ == user@
                        && self.progress@[k].chapter_id@ == chapter@),
            decreases self.progress@.len() - i,
        {
            if self.progress[i].user_id == *user && self.progress[i].chapter_id == *chapter {
                return Some(i);
            }
            i = i + 1;
        }
        None
    }

    /// The index of the first purchase of the course `course` by `user`.
    pub fn find_purchase(&self, user: &String, course: &String) -> (r: Option<usize>)
        ensures
            match r {
                Some(i) => i < self.purchases@.len() && self.purchases@[i as int].user_id@
                    == user@ && self.purchases@[i as int].course_id@ == course@
                    && forall|k: int|
                    0 <= k < i ==> !(#[trigger] self.purchases@[k].user_id@ == user@
                        && self.purchases@[k].course_id@ == course@),
                None => forall|k: int|
                    0 <= k < self.purchases@.len() ==> !(#[trigger] self.purchases@[k].user_id@
                        == user@ && self.purchases@[k].course_id@ == course@),
            },
    {
        let mut i: usize = 0;
        while i < self.purchases.len()
            invariant
                i <= self.purchases@.len(),
                forall|k: int|
                    0 <= k < i ==> !(#[trigger] self.purchases@[k].user_id@ == user@
                        && self.purchases@[k].course_id@ == course@),
            decreases self.purchases@.len() - i,
        {
            if self.purchases[i].user_id == *user && self.purchases[i].course_id == *course {
                return Some(i);
            }
            i = i + 1;
        }
        None
    }

    /// Whether some chapter of the course `course` is published.
    pub fn any_published(&self, course: &String) -> (r: bool)
        ensures
            r == has_published(self.chapters@, course@),
    {
        let mut i: usize = 0;
        while i < self.chapters.len()
            invariant
                i <= self.chapters@.len(),
                forall|k: int|
                    0 <= k < i ==> !(#[trigger] self.chapters@[k].course_id@ == course@
                        && self.chapters@[k].is_published),
            decreases self.chapters@.len() - i,
        {
            if self.chapters[i].is_published && self.chapters[i].course_id == *course {
                return true;
            }
            i = i + 1;
        }
        false
    }

    /// Clears the published flag of the course `course` when none of its
    /// chapters is published any more.
    pub fn recount_course(&mut self, course: &String)
        ensures
            final(self).courses@ == courses_after_recount(
                old(self).courses@,
                old(self).chapters@,
                course@,
            ),
            final(self).chapters == old(self).chapters,
            final(self).purchases == old(self).purchases,
            final(self).attachments == old(self).attachments,
            final(self).progress == old(self).progress,
            final(self).mux_data == old(self).mux_data,
    {
        if self.any_published(course) {
            return;
        }
        let ghost before = self.courses@;
        let mut i: usize = 0;
        while i < self.courses.len()
            invariant
                i <= self.courses@.len(),
                self.courses@.len() == before.len(),
                self.chapters == old(self).chapters,
                self.purchases == old(self).purchases,
                self.attachments == old(self).attachments,
                self.progress == old(self).progress,
                self.mux_data == old(self).mux_data,
                before == old(self).courses@,
                forall|k: int|
                    0 <= k < i ==> #[trigger] self.courses@[k] == unpublish_course(
                        before,
                        course@,
                    )[k],
                forall|k: int| i <= k < before.len() ==> #[trigger] self.courses@[k] == before[k],
            decreases before.len() - i,
        {
            if self.courses[i].id == *course {
                self.courses[i].is_published = false;
            }
            i = i + 1;
        }
        assert(self.courses@ =~= unpublish_course(before, course@));
    }

    /// Removes the chapter at `i`.
    pub fn remove_chapter(&mut self, i: usize) -> (r: Chapter)
        requires
            old(self).wf(),
            i < old(self).chapters@.len(),
        ensures
            final(self).wf(),
            r == old(self).chapters@[i as int],
            final(self).chapters@ == old(self).chapters@.remove(i as int),
            final(self).courses == old(self).courses,
            final(self).purchases == old(self).purchases,
            final(self).attachments == old(self).attachments,
            final(self).progress == old(self).progress,
            final(self).mux_data == old(self).mux_data,
    {
        let r = self.chapters.remove(i);
        assert forall|a: int, b: int|
            0 <= a < b < self.chapters@.len() implies #[trigger] self.chapters@[a].id@
            != #[trigger] self.chapters@[b].id@ by {
            let a0 = if a < i { a } else { a + 1 };
            let b0 = if b < i { b } else { b + 1 };
            assert(old(self).chapters@[a0] == self.chapters@[a]);
            assert(old(self).chapters@[b0] == self.chapters@[b]);
        }
        r
    }

    /// Removes the asset at `i`.
    pub fn remove_asset(&mut self, i: usize) -> (r: mux_data::Model)
        requires
            old(self).wf(),
            i < old(self).mux_data@.len(),
        ensures
            final(self).wf(),
            r == old(self).mux_data@[i as int],
            final(self).mux_data@ == old(self).mux_data@.remove(i as int),
            !has_asset(final(self).mux_data@, r.chapter_id@),
            final(self).courses == old(self).courses,
            final(self).chapters == old(self).chapters,
            final(self).purchases == old(self).purchases,
            final(self).attachments == old(self).attachments,
            final(self).progress == old(self).progress,
    {
        let r = self.mux_data.remove(i);
        assert forall|a: int, b: int|
            0 <= a < b < self.mux_data@.len() implies #[trigger] self.mux_data@[a].chapter_id@
            != #[trigger] self.mux_data@[b].chapter_id@ by {
            let a0 = if a < i { a } else { a + 1 };
            let b0 = if b < i { b } else { b + 1 };
            assert(old(self).mux_data@[a0] == self.mux_data@[a]);
            assert(old(self).mux_data@[b0] == self.mux_data@[b]);
        }
        assert forall|k: int| 0 <= k < self.mux_data@.len() implies #[trigger] self.mux_data@[k].chapter_id@
            != r.chapter_id@ by {
            let k0 = if k < i { k } else { k + 1 };
            assert(old(self).mux_data@[k0] == self.mux_data@[k]);
        }
        r
    }

    /// The chapters of the course `course`, sorted by position; those of
    /// equal position come in the order of the store.
    pub fn listing(&self, course: &String) -> (r: Vec<Chapter>)
        ensures
            r@ == course_listing(self.chapters@, course@),
    {
        let mut out: Vec<Chapter> = Vec::new();
        let mut i: usize = 0;
        while i < self.chapters.len()
            invariant
                i <= self.chapters@.len(),
                out@ == course_listing(self.chapters@.take(i as int), course@),
            decreases self.chapters@.len() - i,
        {
            proof {
                assert(self.chapters@.take(i + 1).drop_last() =~= self.chapters@.take(i as int));
            }
            if self.chapters[i].course_id == *course {
                let c = self.chapters[i].clone();
                let mut k: usize = out.len();
                while k > 0 && out[k - 1].position > c.position
                    invariant
                        k <= out@.len(),
                        forall|j: int| k <= j < out@.len() ==> #[trigger] out@[j].position > c.position,
                    decreases k,
                {
                    k = k - 1;
                }
                proof {
                    lemma_insert_at(out@, c, k as int);
                }
                out.insert(k, c);
            }
            i = i + 1;
        }
        proof {
            assert(self.chapters@.take(i as int) =~= self.chapters@);
        }
        out
    }

    /// The lowest position of a chapter of the course `course`.
    pub fn first_position(&self, course: &String) -> (r: Option<i32>)
        ensures
            r == lowest_position(self.chapters@, course@),
    {
        let mut m: Option<i32> = None;
        let mut i: usize = 0;
        while i < self.chapters.len()
            invariant
                i <= self.chapters@.len(),
                m == lowest_position(self.chapters@.take(i as int), course@),
            decreases self.chapters@.len() - i,
        {
            proof {
                assert(self.chapters@.take(i + 1).drop_last() =~= self.chapters@.take(i as int));
            }
            if self.chapters[i].course_id == *course {
                let p = self.chapters[i].position;
                m = match m {
                    Some(q) => Some(if p < q { p } else { q }),
                    None => Some(p),
                };
            }
            i = i + 1;
        }
        proof {
            assert(self.chapters@.take(i as int) =~= self.chapters@);
        }
        m
    }
}

} // verus!
