//! Hyperlinks and curies.

use vstd::prelude::*;
use vstd::string::StringExecFns;

verus! {

/// A hyperlink. Its target may be a URI template, in which case the link is
/// marked as templated. A link does not change once it is made: the methods
/// that set a part give a new link.
#[derive(Debug, PartialEq, Eq)]
pub struct Link {
    href: String,
    title: Option<String>,
    templated: bool,
}

/// The mathematical value of a `Link`.
pub struct LinkView {
    pub href: Seq<char>,
    pub title: Option<Seq<char>>,
    pub templated: bool,
}

impl View for Link {
    type V = LinkView;

    closed spec fn view(&self) -> LinkView {
        LinkView {
            href: self.href@,
            title: match self.title {
                Some(t) => Some(t@),
                None => None,
            },
            templated: self.templated,
        }
    }
}

impl LinkView {
    /// A link to `href`, without a title and not templated.
    pub open spec fn to(href: Seq<char>) -> LinkView {
        LinkView { href, title: None, templated: false }
    }
}

impl Clone for Link {
    fn clone(&self) -> (r: Self)
        ensures
            r@ == self@,
    {
        Link {
            href: self.href.clone(),
            title: match &self.title {
                Some(t) => Some(t.clone()),
                None => None,
            },
            templated: self.templated,
        }
    }
}

impl Link {
    /// A link to `href`, without a title and not templated.
    pub fn new(href: &str) -> (link: Link)
        ensures
            link@ == LinkView::to(href@),
    {
        Link { href: String::from_str(href), title: None, templated: false }
    }

    /// The link with the given title.
    pub fn title(self, title: &str) -> (link: Link)
        ensures
            link@ == (LinkView { title: Some(title@), ..self@ }),
    {
        Link { href: self.href, title: Some(String::from_str(title)), templated: self.templated }
    }

    /// The link, marked as templated or not.
    pub fn templated(self, templated: bool) -> (link: Link)
        ensures
            link@ == (LinkView { templated, ..self@ }),
    {
        Link { href: self.href, title: self.title, templated }
    }

    /// The target of the link.
    pub fn href(&self) -> (href: &str)
        ensures
            href@ == self@.href,
    {
        self.href.as_str()
    }

    /// The title of the link, if it has one.
    pub fn title_text(&self) -> (title: Option<&str>)
        ensures
            match title {
                Some(t) => self@.title == Some(t@),
                None => self@.title is None,
            },
    {
        match &self.title {
            Some(t) => Some(t.as_str()),
            None => None,
        }
    }

    /// Whether the target is a URI template.
    pub fn is_templated(&self) -> (templated: bool)
        ensures
            templated == self@.templated,
    {
        self.templated
    }
}

/// A curie: a prefix that stands for a family of link relations, and the URI
/// template, with the placeholder `{rel}`, that documents them.
#[derive(Debug, PartialEq, Eq)]
pub struct Curie {
    prefix: String,
    href_template: String,
}

/// The mathematical value of a `Curie`.
pub struct CurieView {
    pub prefix: Seq<char>,
    pub href_template: Seq<char>,
}

impl View for Curie {
    type V = CurieView;

    closed spec fn view(&self) -> CurieView {
        CurieView { prefix: self.prefix@, href_template: self.href_template@ }
    }
}

impl Clone for Curie {
    fn clone(&self) -> (r: Self)
        ensures
            r@ == self@,
    {
        Curie { prefix: self.prefix.clone(), href_template: self.href_template.clone() }
    }
}

impl Curie {
    /// The curie of `prefix` with the given template.
    pub fn new(prefix: &str, href_template: &str) -> (curie: Curie)
        ensures
            curie@ == (CurieView { prefix: prefix@, href_template: href_template@ }),
    {
        Curie { prefix: String::from_str(prefix), href_template: String::from_str(href_template) }
    }

    /// The prefix.
    pub fn prefix(&self) -> (prefix: &str)
        ensures
            prefix@ == self@.prefix,
    {
        self.prefix.as_str()
    }

    /// The URI template.
    pub fn href_template(&self) -> (template: &str)
        ensures
            template@ == self@.href_template,
    {
        self.href_template.as_str()
    }
}

} // verus!
