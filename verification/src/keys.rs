//! Identifiers and catalogue records of courses, lectures and pages.
//!
//! A lecture key names its course and a page key names its lecture, so a
//! key carries the whole path from the course down to the item.

use vstd::prelude::*;

verus! {

/// Abstract value of a [`CourseKey`].
pub struct CourseKeyView {
    pub slug: Seq<char>,
}

/// Abstract value of a [`LectureKey`].
pub struct LectureKeyView {
    pub course: CourseKeyView,
    pub slug: Seq<char>,
}

/// Abstract value of a [`PageKey`].
pub struct PageKeyView {
    pub lecture: LectureKeyView,
    pub slug: Seq<char>,
}

/// Identifies a course.
#[derive(Debug, PartialEq, Eq, Hash)]
pub struct CourseKey {
    pub slug: String,
}

/// Identifies a lecture inside its course.
#[derive(Debug, PartialEq, Eq, Hash)]
pub struct LectureKey {
    pub course_key: CourseKey,
    pub slug: String,
}

/// Identifies a page inside its lecture.
#[derive(Debug, PartialEq, Eq, Hash)]
pub struct PageKey {
    pub lecture_key: LectureKey,
    pub slug: String,
}

impl View for CourseKey {
    type V = CourseKeyView;

    open spec fn view(&self) -> CourseKeyView {
        CourseKeyView { slug: self.slug@ }
    }
}

impl View for LectureKey {
    type V = LectureKeyView;

    open spec fn view(&self) -> LectureKeyView {
        LectureKeyView { course: self.course_key@, slug: self.slug@ }
    }
}

impl View for PageKey {
    type V = PageKeyView;

    open spec fn view(&self) -> PageKeyView {
        PageKeyView { lecture: self.lecture_key@, slug: self.slug@ }
    }
}

/// Keys that can be compared and copied in executable code, with both
/// operations pinned to the key's abstract value.
pub trait CatalogKey: View + Sized {
    fn same_key(&self, other: &Self) -> (b: bool)
        ensures
            b == (self@ == other@),
    ;

    fn copy_key(&self) -> (r: Self)
        ensures
            r@ == self@,
    ;
}

impl CatalogKey for CourseKey {
    fn same_key(&self, other: &Self) -> (b: bool) {
        self.slug == other.slug
    }

    fn copy_key(&self) -> (r: Self) {
        CourseKey { slug: self.slug.clone() }
    }
}

impl CatalogKey for LectureKey {
    fn same_key(&self, other: &Self) -> (b: bool) {
        self.course_key.same_key(&other.course_key) && self.slug == other.slug
    }

    fn copy_key(&self) -> (r: Self) {
        LectureKey { course_key: self.course_key.copy_key(), slug: self.slug.clone() }
    }
}

impl CatalogKey for PageKey {
    fn same_key(&self, other: &Self) -> (b: bool) {
        self.lecture_key.same_key(&other.lecture_key) && self.slug == other.slug
    }

    fn copy_key(&self) -> (r: Self) {
        PageKey { lecture_key: self.lecture_key.copy_key(), slug: self.slug.clone() }
    }
}

/// A course as listed in the catalogue.
#[derive(Debug)]
pub struct Course {
    pub key: CourseKey,
    pub name: String,
}

/// A lecture of a course.
#[derive(Debug)]
pub struct Lecture {
    pub key: LectureKey,
    pub name: String,
}

/// A page of a lecture; its slides are what gets downloaded.
#[derive(Debug)]
pub struct LecturePage {
    pub key: PageKey,
    pub name: String,
}

/// A group of lectures in a course's outline.
#[derive(Debug)]
pub struct LectureGroup {
    pub course_key: CourseKey,
    pub name: String,
}

/// An academic year of the archive.
#[derive(PartialEq, Eq, Structural, Clone, Copy, Debug)]
pub struct Year {
    pub value: u32,
}

/// What a user signs in with.
#[derive(Debug)]
pub struct Credentials {
    pub username: String,
    pub password: String,
}

impl Course {
    pub fn display_name(&self) -> (s: &str)
        ensures
            s@ == self.name@,
    {
        self.name.as_str()
    }
}

impl Lecture {
    pub fn display_name(&self) -> (s: &str)
        ensures
            s@ == self.name@,
    {
        self.name.as_str()
    }
}

impl LecturePage {
    pub fn display_name(&self) -> (s: &str)
        ensures
            s@ == self.name@,
    {
        self.name.as_str()
    }
}

impl LectureGroup {
    pub fn display_name(&self) -> (s: &str)
        ensures
            s@ == self.name@,
    {
        self.name.as_str()
    }
}

impl Clone for CourseKey {
    fn clone(&self) -> (r: Self)
        ensures
            r == *self,
    {
        CourseKey { slug: self.slug.clone() }
    }
}

impl Clone for LectureKey {
    fn clone(&self) -> (r: Self)
        ensures
            r == *self,
    {
        LectureKey { course_key: self.course_key.clone(), slug: self.slug.clone() }
    }
}

impl Clone for PageKey {
    fn clone(&self) -> (r: Self)
        ensures
            r == *self,
    {
        PageKey { lecture_key: self.lecture_key.clone(), slug: self.slug.clone() }
    }
}

impl Clone for Course {
    fn clone(&self) -> (r: Self)
        ensures
            r == *self,
    {
        Course { key: self.key.clone(), name: self.name.clone() }
    }
}

impl Clone for Lecture {
    fn clone(&self) -> (r: Self)
        ensures
            r == *self,
    {
        Lecture { key: self.key.clone(), name: self.name.clone() }
    }
}

impl Clone for LecturePage {
    fn clone(&self) -> (r: Self)
        ensures
            r == *self,
    {
        LecturePage { key: self.key.clone(), name: self.name.clone() }
    }
}

impl Clone for Credentials {
    fn clone(&self) -> (r: Self)
        ensures
            r == *self,
    {
        Credentials { username: self.username.clone(), password: self.password.clone() }
    }
}

} // verus!
