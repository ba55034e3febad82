use vstd::prelude::*;

verus! {

/// A course, owned by one user.
pub struct Course {
    pub id: String,
    /// The owner.
    pub user_id: String,
    pub price: Option<i64>,
    pub is_published: bool,
}

/// A chapter of a course. `position` orders the chapters of a course.
pub struct Chapter {
    pub id: String,
    pub course_id: String,
    pub title: String,
    pub description: Option<String>,
    pub video_url: Option<String>,
    pub position: i32,
    pub is_published: bool,
    pub is_free: bool,
    /// Seconds since the epoch.
    pub created_at: i64,
    /// Seconds since the epoch.
    pub updated_at: i64,
}

/// Evidence that a user may see the gated content of a course.
pub struct Purchase {
    pub id: String,
    pub user_id: String,
    pub course_id: String,
}

/// A file attached to a course.
pub struct Attachment {
    pub id: String,
    pub course_id: String,
    pub name: String,
    pub url: String,
}

/// How far a user got in a chapter; at most one per user and chapter.
pub struct UserProgress {
    pub id: String,
    pub user_id: String,
    pub chapter_id: String,
    pub is_completed: bool,
    /// Seconds since the epoch.
    pub created_at: i64,
    /// Seconds since the epoch.
    pub updated_at: i64,
}

/// A copy of an optional string.
pub fn clone_opt(s: &Option<String>) -> (r: Option<String>)
    ensures
        r == *s,
{
    match s {
        Some(v) => Some(v.clone()),
        None => None,
    }
}

impl Clone for Course {
    fn clone(&self) -> (r: Self)
        ensures
            r == *self,
    {
        Course {
            id: self.id.clone(),
            user_id: self.user_id.clone(),
            price: self.price,
            is_published: self.is_published,
        }
    }
}

impl Clone for Chapter {
    fn clone(&self) -> (r: Self)
        ensures
            r == *self,
    {
        Chapter {
            id: self.id.clone(),
            course_id: self.course_id.clone(),
            title: self.title.clone(),
            description: clone_opt(&self.description),
            video_url: clone_opt(&self.video_url),
            position: self.position,
            is_published: self.is_published,
            is_free: self.is_free,
            created_at: self.created_at,
            updated_at: self.updated_at,
        }
    }
}

impl Clone for Purchase {
    fn clone(&self) -> (r: Self)
        ensures
            r == *self,
    {
        Purchase {
            id: self.id.clone(),
            user_id: self.user_id.clone(),
            course_id: self.course_id.clone(),
        }
    }
}

impl Clone for Attachment {
    fn clone(&self) -> (r: Self)
        ensures
            r == *self,
    {
        Attachment {
            id: self.id.clone(),
            course_id: self.course_id.clone(),
            name: self.name.clone(),
            url: self.url.clone(),
        }
    }
}

impl Clone for UserProgress {
    fn clone(&self) -> (r: Self)
        ensures
            r == *self,
    {
        UserProgress {
            id: self.id.clone(),
            user_id: self.user_id.clone(),
            chapter_id: self.chapter_id.clone(),
            is_completed: self.is_completed,
            created_at: self.created_at,
            updated_at: self.updated_at,
        }
    }
}

} // verus!
