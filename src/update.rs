use crate::chapters::{may_edit, Chapters};
use crate::error::Error;
use crate::mux_data;
use crate::records::Chapter;
use crate::store::{has_asset, Db};
use vstd::prelude::*;

verus! {

/// One recognised field of a partial chapter update.
pub enum ChapterPatch {
    IsFree(bool),
    Description(String),
    Title(String),
    /// Sets the video URL and replaces the chapter's video asset.
    VideoUrl(String),
}

/// A value of a field of a partial update, as the caller received it.
pub enum FieldValue {
    Bool(bool),
    Text(String),
    /// A number, a list, an object or null.
    Other,
}

/// The patch that the field `key` with the value `value` stands for: the
/// flag `isFree` takes a boolean; `description`, `title` and `videoUrl` take
/// text. Any other key, or a value of another kind, stands for none.
pub open spec fn patch_for(key: Seq<char>, value: FieldValue) -> Option<ChapterPatch> {
    match value {
        FieldValue::Bool(b) => if key == "isFree"@ {
            Some(ChapterPatch::IsFree(b))
        } else {
            None
        },
        FieldValue::Text(t) => if key == "description"@ {
            Some(ChapterPatch::Description(t))
        } else if key == "title"@ {
            Some(ChapterPatch::Title(t))
        } else if key == "videoUrl"@ {
            Some(ChapterPatch::VideoUrl(t))
        } else {
            None
        },
        FieldValue::Other => None,
    }
}

/// The patches that `fields` stand for, in their order.
pub open spec fn patches_for(fields: Seq<(String, FieldValue)>) -> Seq<ChapterPatch>
    decreases fields.len(),
{
    if fields.len() == 0 {
        Seq::<ChapterPatch>::empty()
    } else {
        let rest = patches_for(fields.drop_last());
        match patch_for(fields.last().0@, fields.last().1) {
            Some(p) => rest.push(p),
            None => rest,
        }
    }
}

/// Whether `a` holds the text `b`.
fn is_key(a: &String, b: &str) -> (r: bool)
    ensures
        r == (a@ == b@),
{
    broadcast use vstd::string::to_string_from_display_ensures_for_str;

    *a == b.to_string()
}

/// The patch that the field `key` with the value `value` stands for.
pub fn patch_of(key: &String, value: FieldValue) -> (r: Option<ChapterPatch>)
    ensures
        r == patch_for(key@, value),
{
    match value {
        FieldValue::Bool(b) => if is_key(key, "isFree") {
            Some(ChapterPatch::IsFree(b))
        } else {
            None
        },
        FieldValue::Text(t) => if is_key(key, "description") {
            Some(ChapterPatch::Description(t))
        } else if is_key(key, "title") {
            Some(ChapterPatch::Title(t))
        } else if is_key(key, "videoUrl") {
            Some(ChapterPatch::VideoUrl(t))
        } else {
            None
        },
        FieldValue::Other => None,
    }
}

/// The patches that the fields of a partial update stand for, in their
/// order; unknown keys and values of the wrong kind are left out.
pub fn patches_of(fields: &Vec<(String, FieldValue)>) -> (r: Vec<ChapterPatch>)
    ensures
        r@ == patches_for(fields@),
{
    let mut out: Vec<ChapterPatch> = Vec::new();
    let mut i: usize = 0;
    while i < fields.len()
        invariant
            i <= fields@.len(),
            out@ == patches_for(fields@.take(i as int)),
        decreases fields@.len() - i,
    {
        proof {
            assert(fields@.take(i + 1).drop_last() =~= fields@.take(i as int));
        }
        match patch_of(&fields[i].0, fields[i].1.clone()) {
            Some(p) => out.push(p),
            None => {},
        }
        i = i + 1;
    }
    proof {
        assert(fields@.take(i as int) =~= fields@);
    }
    out
}

impl Clone for FieldValue {
    fn clone(&self) -> (r: Self)
        ensures
            r == *self,
    {
        match self {
            FieldValue::Bool(b) => FieldValue::Bool(*b),
            FieldValue::Text(t) => FieldValue::Text(t.clone()),
            FieldValue::Other => FieldValue::Other,
        }
    }
}

/// The video provider's reply to an asset creation.
pub struct AssetReply {
    /// The HTTP status of the reply.
    pub status: u16,
    /// The id of the created asset.
    pub asset_id: String,
    /// The first playback id of the created asset.
    pub playback_id: Option<String>,
}

/// What the caller of an update in progress does next.
pub enum UpdateStep {
    /// Deletes the remote asset `delete_asset`, if any, without waiting for
    /// the outcome, then asks the provider to create an asset from
    /// `source_url` and hands the reply to [`ChapterUpdate::resume`].
    CreateAsset { delete_asset: Option<String>, source_url: String },
    /// The update is written.
    Done,
}

/// A partial update of a chapter, applied patch by patch.
pub struct ChapterUpdate {
    pub course_id: String,
    pub chapter_id: String,
    /// The chapter with the patches applied so far.
    pub draft: Chapter,
    pub patches: Vec<ChapterPatch>,
    /// The index of the next patch to apply.
    pub next: usize,
}

/// `c` with `p` applied.
pub open spec fn apply_patch(c: Chapter, p: ChapterPatch) -> Chapter {
    match p {
        ChapterPatch::IsFree(b) => Chapter { is_free: b, ..c },
        ChapterPatch::Description(d) => Chapter { description: Some(d), ..c },
        ChapterPatch::Title(t) => Chapter { title: t, ..c },
        ChapterPatch::VideoUrl(u) => Chapter { video_url: Some(u), ..c },
    }
}

/// `c` with the patches of `ps` applied in their order.
pub open spec fn apply_patches(c: Chapter, ps: Seq<ChapterPatch>) -> Chapter
    decreases ps.len(),
{
    if ps.len() == 0 {
        c
    } else {
        apply_patch(apply_patches(c, ps.drop_last()), ps.last())
    }
}

/// `chs` with the chapter of id `c.id` replaced by `c`.
pub open spec fn set_record(chs: Seq<Chapter>, c: Chapter) -> Seq<Chapter> {
    chs.map_values(|x: Chapter| if x.id@ == c.id@ { c } else { x })
}

/// `assets` once the asset of the chapter `chapter` is taken out, and the
/// provider's id of that asset, if there was one.
pub open spec fn assets_without(assets: Seq<mux_data::Model>, chapter: Seq<char>) -> (Seq<
    mux_data::Model,
>, Option<String>) {
    if has_asset(assets, chapter) {
        let i = choose|i: int| 0 <= i < assets.len() && #[trigger] assets[i].chapter_id@ == chapter;
        (assets.remove(i), Some(assets[i].asset_id))
    } else {
        (assets, None)
    }
}

/// What [`ChapterUpdate::advance`] does: from the session `s0` on the store
/// `db0` to the session `s1` on the store `db1`, with the result `r`.
pub open spec fn advanced(
    s0: ChapterUpdate,
    db0: Db,
    s1: ChapterUpdate,
    db1: Db,
    r: Result<UpdateStep, Error>,
) -> bool {
    &&& s1.wf()
    &&& db1.wf()
    &&& s1.course_id == s0.course_id
    &&& s1.chapter_id == s0.chapter_id
    &&& s1.patches == s0.patches
    &&& db1.courses == db0.courses
    &&& db1.purchases == db0.purchases
    &&& db1.attachments == db0.attachments
    &&& db1.progress == db0.progress
    &&& match r {
        Ok(UpdateStep::CreateAsset { delete_asset, source_url }) => {
            let k = s1.next - 1;
            &&& s0.next <= k < s0.patches@.len()
            &&& s0.patches@[k] == ChapterPatch::VideoUrl(source_url)
            &&& forall|j: int| s0.next <= j < k ==> !(#[trigger] s0.patches@[j] is VideoUrl)
            &&& s1.draft == apply_patches(s0.draft, s0.patches@.subrange(s0.next as int, k + 1))
            &&& (db1.mux_data@, delete_asset) == assets_without(db0.mux_data@, s0.chapter_id@)
            &&& db1.chapters == db0.chapters
        },
        Ok(UpdateStep::Done) => {
            &&& forall|j: int|
                s0.next <= j < s0.patches@.len() ==> !(#[trigger] s0.patches@[j] is VideoUrl)
            &&& s1.draft == apply_patches(
                s0.draft,
                s0.patches@.subrange(s0.next as int, s0.patches@.len() as int),
            )
            &&& s1.next == s0.patches@.len()
            &&& db1.chapters@ == set_record(db0.chapters@, s1.draft)
            &&& db1.mux_data == db0.mux_data
        },
        Err(e) => {
            &&& e == Error::NotFound
            &&& !exists|i: int|
                0 <= i < db0.chapters@.len() && #[trigger] db0.chapters@[i].id@ == s0.chapter_id@
            &&& db1 == db0
        },
    }
}

/// The error that a provider's reply of status `status` stands for, where
/// the status is not a creation.
pub open spec fn provider_error(status: u16) -> Error {
    if status == 500 {
        Error::ProviderServerError
    } else if status == 401 {
        Error::ProviderUnauthorized
    } else {
        Error::ProviderRequestFailed
    }
}

/// What [`ChapterUpdate::resume`] does: the session `s` records the reply
/// `reply` as the asset row `row_id`, from the store `db0` to the store `db1`,
/// with the result `r`.
pub open spec fn recorded(
    s: ChapterUpdate,
    db0: Db,
    reply: AssetReply,
    row_id: String,
    db1: Db,
    r: Result<(), Error>,
) -> bool {
    &&& db1.wf()
    &&& reply.status != 201 ==> r == Err::<(), Error>(provider_error(reply.status))
    &&& reply.status == 201 && has_asset(db0.mux_data@, s.chapter_id@) ==> r == Err::<(), Error>(
        Error::StoreFailure,
    )
    &&& reply.status == 201 && !has_asset(db0.mux_data@, s.chapter_id@) ==> r is Ok
    &&& r is Err ==> db1 == db0
    &&& r is Ok ==> db1.mux_data@ == db0.mux_data@.push(
        mux_data::Model {
            id: row_id,
            asset_id: reply.asset_id,
            playback_id: reply.playback_id,
            chapter_id: s.chapter_id,
        },
    )
    &&& db1.courses == db0.courses
    &&& db1.chapters == db0.chapters
    &&& db1.purchases == db0.purchases
    &&& db1.attachments == db0.attachments
    &&& db1.progress == db0.progress
}

/// Patches keep the id and the course of a chapter.
proof fn lemma_patches_keep_keys(c: Chapter, ps: Seq<ChapterPatch>)
    ensures
        apply_patches(c, ps).id == c.id,
        apply_patches(c, ps).course_id == c.course_id,
    decreases ps.len(),
{
    if ps.len() > 0 {
        lemma_patches_keep_keys(c, ps.drop_last());
    }
}

impl ChapterUpdate {
    /// The draft is the chapter `chapter_id` of the course `course_id`, and
    /// no patch is applied twice.
    pub open spec fn wf(&self) -> bool {
        &&& self.next <= self.patches@.len()
        &&& self.draft.id@ == self.chapter_id@
        &&& self.draft.course_id@ == self.course_id@
    }

    /// Applies the patches from `next` on, up to and including the next video
    /// URL, whose asset it takes out of the store; writes the draft when no
    /// patch is left.
    pub fn advance(&mut self, db: &mut Db) -> (r: Result<UpdateStep, Error>)
        requires
            old(self).wf(),
            old(db).wf(),
        ensures
            advanced(*old(self), *old(db), *final(self), *final(db), r),
    {
        let ghost start = self.next as int;
        let ghost draft0 = self.draft;
        proof {
            assert(self.patches@.subrange(start, start) =~= Seq::<ChapterPatch>::empty());
        }
        while self.next < self.patches.len()
            invariant
                self.wf(),
                start <= self.next,
                self.course_id == old(self).course_id,
                self.chapter_id == old(self).chapter_id,
                self.patches == old(self).patches,
                start == old(self).next,
                draft0 == old(self).draft,
                *db == *old(db),
                db.wf(),
                forall|j: int| start <= j < self.next ==> !(#[trigger] self.patches@[j] is VideoUrl),
                self.draft == apply_patches(draft0, self.patches@.subrange(start, self.next as int)),
            decreases self.patches@.len() - self.next,
        {
            let i = self.next;
            proof {
                assert(self.patches@.subrange(start, i + 1).drop_last() =~= self.patches@.subrange(
                    start,
                    i as int,
                ));
            }
            self.next = i + 1;
            match &self.patches[i] {
                ChapterPatch::IsFree(b) => {
                    self.draft.is_free = *b;
                },
                ChapterPatch::Description(d) => {
                    self.draft.description = Some(d.clone());
                },
                ChapterPatch::Title(t) => {
                    self.draft.title = t.clone();
                },
                ChapterPatch::VideoUrl(u) => {
                    let url = u.clone();
                    self.draft.video_url = Some(u.clone());
                    let ghost s = db.mux_data@;
                    let ghost ch = self.chapter_id@;
                    let delete_asset = match db.find_asset(&self.chapter_id) {
                        Some(j) => {
                            proof {
                                let w = choose|w: int| 0 <= w < s.len() && #[trigger] s[w].chapter_id@ == ch;
                                assert(s[j as int].chapter_id@ == ch);
                                assert(w == j);
                            }
                            let old_asset = db.remove_asset(j);
                            Some(old_asset.asset_id)
                        },
                        None => None,
                    };
                    proof {
                        assert(self.patches@.subrange(start, i + 1).last() == self.patches@[i as int]);
                    }
                    return Ok(UpdateStep::CreateAsset { delete_asset, source_url: url });
                },
            }
        }
        match db.find_chapter(&self.chapter_id) {
            Some(idx) => {
                let ghost before = db.chapters@;
                db.chapters[idx] = self.draft.clone();
                proof {
                    assert(db.chapters@ =~= set_record(before, self.draft));
                    assert(self.patches@.subrange(start, self.next as int) =~= self.patches@.subrange(
                        start,
                        self.patches@.len() as int,
                    ));
                }
                Ok(UpdateStep::Done)
            },
            None => Err(Error::NotFound),
        }
    }

    /// Records the provider's reply to the asset creation that the last step
    /// asked for. A creation (status 201) adds the asset row `row_id` of the
    /// chapter; any other status is the error it stands for.
    pub fn resume(&self, db: &mut Db, reply: AssetReply, row_id: String) -> (r: Result<
        (),
        Error,
    >)
        requires
            self.wf(),
            old(db).wf(),
        ensures
            recorded(*self, *old(db), reply, row_id, *final(db), r),
    {
        if reply.status == 500 {
            return Err(Error::ProviderServerError);
        } else if reply.status == 401 {
            return Err(Error::ProviderUnauthorized);
        } else if reply.status != 201 {
            return Err(Error::ProviderRequestFailed);
        }
        if db.find_asset(&self.chapter_id).is_some() {
            return Err(Error::StoreFailure);
        }
        let row = mux_data::Model {
            id: row_id,
            asset_id: reply.asset_id,
            playback_id: reply.playback_id,
            chapter_id: self.chapter_id.clone(),
        };
        db.mux_data.push(row);
        Ok(())
    }
}

impl Chapters {
    /// Starts the partial update `updates` of the chapter `chapter_id` of the
    /// course `course_id` for its owner `user_id`, and takes its first step.
    /// The patches apply in their order; the chapter is written once, when
    /// all are applied. A video URL pauses the update until the provider's
    /// reply is recorded with [`ChapterUpdate::resume`] and the session is
    /// advanced again.
    pub fn update(
        db: &mut Db,
        user_id: String,
        course_id: String,
        chapter_id: String,
        updates: Vec<ChapterPatch>,
    ) -> (r: Result<(ChapterUpdate, UpdateStep), Error>)
        requires
            old(db).wf(),
        ensures
            r is Ok <==> may_edit(*old(db), user_id@, course_id@, chapter_id@),
            r is Err ==> r == Err::<(ChapterUpdate, UpdateStep), Error>(Error::NotFound)
                && *final(db) == *old(db),
            r matches Ok((s, step)) ==> exists|i: int|
                0 <= i < old(db).chapters@.len() && #[trigger] old(db).chapters@[i].id@
                    == chapter_id@ && old(db).chapters@[i].course_id@ == course_id@ && advanced(
                    ChapterUpdate {
                        course_id,
                        chapter_id,
                        draft: old(db).chapters@[i],
                        patches: updates,
                        next: 0,
                    },
                    *old(db),
                    s,
                    *final(db),
                    Ok(step),
                ),
    {
        if !db.is_owner(&user_id, &course_id) {
            return Err(Error::NotFound);
        }
        let i = match db.find_chapter_in(&course_id, &chapter_id) {
            Some(i) => i,
            None => {
                return Err(Error::NotFound);
            },
        };
        let mut session = ChapterUpdate {
            course_id,
            chapter_id,
            draft: db.chapters[i].clone(),
            patches: updates,
            next: 0,
        };
        let ghost s0 = session;
        let ghost db0 = *db;
        let step = session.advance(db);
        match step {
            Ok(step) => Ok((session, step)),
            Err(_) => {
                proof {
                    assert(db0.chapters@[i as int].id@ == s0.chapter_id@);
                }
                Err(Error::NotFound)
            },
        }
    }
}

} // verus!
