//! The two closed tables of names: element tags and attribute keys.
//!
//! Every variant has one canonical spelling, the text that stands for it in
//! rendered markup. The variant names carry a prefix so that no tag collides
//! with a keyword; the spelling never shows the prefix.

use vstd::prelude::*;

verus! {

/// The element names that a tree can hold.
#[derive(Clone, Copy, Debug)]
#[allow(non_camel_case_types)]
pub enum ElementTag {
    E_A,
    E_BR,
    E_HR,
    E_DIV,
    E_SVG,
    E_IMG,
    E_TEMPLATE,
    E_SPAN,
    E_H1,
    E_H2,
    E_H3,
    E_H4,
    E_H5,
    E_I,
    E_B,
    E_P,
    E_USE,
    E_HTML,
    E_HEAD,
    E_BODY,
    E_SCRIPT,
    E_STYLE,
    E_LINK,
}

/// The attribute names that an element can carry.
#[derive(Clone, Copy, Debug)]
#[allow(non_camel_case_types)]
pub enum AttrKey {
    A_HREF,
    A_SRC,
    A_CLASS,
    A_ALT,
    A_TARGET,
    A_ONCLICK,
    A_ID,
    A_STYLE,
    A_REL,
    A_CROSSORIGIN,
    A_INTEGRITY,
}

impl ElementTag {
    /// The canonical spelling of the tag, as a sequence of characters.
    pub open spec fn spelling(self) -> Seq<char> {
        match self {
            ElementTag::E_A => "a"@,
            ElementTag::E_BR => "br"@,
            ElementTag::E_HR => "hr"@,
            ElementTag::E_DIV => "div"@,
            ElementTag::E_SVG => "svg"@,
            ElementTag::E_IMG => "img"@,
            ElementTag::E_TEMPLATE => "template"@,
            ElementTag::E_SPAN => "span"@,
            ElementTag::E_H1 => "h1"@,
            ElementTag::E_H2 => "h2"@,
            ElementTag::E_H3 => "h3"@,
            ElementTag::E_H4 => "h4"@,
            ElementTag::E_H5 => "h5"@,
            ElementTag::E_I => "i"@,
            ElementTag::E_B => "b"@,
            ElementTag::E_P => "p"@,
            ElementTag::E_USE => "use"@,
            ElementTag::E_HTML => "html"@,
            ElementTag::E_HEAD => "head"@,
            ElementTag::E_BODY => "body"@,
            ElementTag::E_SCRIPT => "script"@,
            ElementTag::E_STYLE => "style"@,
            ElementTag::E_LINK => "link"@,
        }
    }

    /// A void tag never carries attributes or children and is never closed.
    pub open spec fn is_void(self) -> bool {
        self is E_BR || self is E_HR
    }

    /// The canonical spelling of the tag.
    pub fn as_str(&self) -> (name: &'static str)
        ensures
            name@ == self.spelling(),
    {
        match self {
            ElementTag::E_A => "a",
            ElementTag::E_BR => "br",
            ElementTag::E_HR => "hr",
            ElementTag::E_DIV => "div",
            ElementTag::E_SVG => "svg",
            ElementTag::E_IMG => "img",
            ElementTag::E_TEMPLATE => "template",
            ElementTag::E_SPAN => "span",
            ElementTag::E_H1 => "h1",
            ElementTag::E_H2 => "h2",
            ElementTag::E_H3 => "h3",
            ElementTag::E_H4 => "h4",
            ElementTag::E_H5 => "h5",
            ElementTag::E_I => "i",
            ElementTag::E_B => "b",
            ElementTag::E_P => "p",
            ElementTag::E_USE => "use",
            ElementTag::E_HTML => "html",
            ElementTag::E_HEAD => "head",
            ElementTag::E_BODY => "body",
            ElementTag::E_SCRIPT => "script",
            ElementTag::E_STYLE => "style",
            ElementTag::E_LINK => "link",
        }
    }

    /// Whether elements with this tag may hold attributes and children:
    /// every tag but the void ones.
    pub fn has_content(&self) -> (yes: bool)
        ensures
            yes == !self.is_void(),
    {
        match self {
            ElementTag::E_BR | ElementTag::E_HR => false,
            _ => true,
        }
    }
}

impl AttrKey {
    /// The canonical spelling of the key, as a sequence of characters.
    pub open spec fn spelling(self) -> Seq<char> {
        match self {
            AttrKey::A_HREF => "href"@,
            AttrKey::A_SRC => "src"@,
            AttrKey::A_CLASS => "class"@,
            AttrKey::A_ALT => "alt"@,
            AttrKey::A_TARGET => "target"@,
            AttrKey::A_ONCLICK => "onclick"@,
            AttrKey::A_ID => "id"@,
            AttrKey::A_STYLE => "style"@,
            AttrKey::A_REL => "rel"@,
            AttrKey::A_CROSSORIGIN => "crossorigin"@,
            AttrKey::A_INTEGRITY => "integrity"@,
        }
    }

    /// The canonical spelling of the key.
    pub fn as_str(&self) -> (name: &'static str)
        ensures
            name@ == self.spelling(),
    {
        match self {
            AttrKey::A_HREF => "href",
            AttrKey::A_SRC => "src",
            AttrKey::A_CLASS => "class",
            AttrKey::A_ALT => "alt",
            AttrKey::A_TARGET => "target",
            AttrKey::A_ONCLICK => "onclick",
            AttrKey::A_ID => "id",
            AttrKey::A_STYLE => "style",
            AttrKey::A_REL => "rel",
            AttrKey::A_CROSSORIGIN => "crossorigin",
            AttrKey::A_INTEGRITY => "integrity",
        }
    }
}

/// A character that can stand in a name: a lower-case letter or a digit.
pub open spec fn is_name_char(c: char) -> bool {
    ('a' <= c && c <= 'z') || ('0' <= c && c <= '9')
}

/// A name: at least one character, each of them a name character.
pub open spec fn is_name(text: Seq<char>) -> bool {
    &&& text.len() > 0
    &&& forall|i: int| 0 <= i < text.len() ==> is_name_char(#[trigger] text[i])
}

impl ElementTag {
    /// The spelling of every tag is a name.
    pub proof fn lemma_spelling_is_name(self)
        ensures
            is_name(self.spelling()),
    {
        match self {
            ElementTag::E_A => {
                reveal_strlit("a");
            },
            ElementTag::E_BR => {
                reveal_strlit("br");
            },
            ElementTag::E_HR => {
                reveal_strlit("hr");
            },
            ElementTag::E_DIV => {
                reveal_strlit("div");
            },
            ElementTag::E_SVG => {
                reveal_strlit("svg");
            },
            ElementTag::E_IMG => {
                reveal_strlit("img");
            },
            ElementTag::E_TEMPLATE => {
                reveal_strlit("template");
            },
            ElementTag::E_SPAN => {
                reveal_strlit("span");
            },
            ElementTag::E_H1 => {
                reveal_strlit("h1");
            },
            ElementTag::E_H2 => {
                reveal_strlit("h2");
            },
            ElementTag::E_H3 => {
                reveal_strlit("h3");
            },
            ElementTag::E_H4 => {
                reveal_strlit("h4");
            },
            ElementTag::E_H5 => {
                reveal_strlit("h5");
            },
            ElementTag::E_I => {
                reveal_strlit("i");
            },
            ElementTag::E_B => {
                reveal_strlit("b");
            },
            ElementTag::E_P => {
                reveal_strlit("p");
            },
            ElementTag::E_USE => {
                reveal_strlit("use");
            },
            ElementTag::E_HTML => {
                reveal_strlit("html");
            },
            ElementTag::E_HEAD => {
                reveal_strlit("head");
            },
            ElementTag::E_BODY => {
                reveal_strlit("body");
            },
            ElementTag::E_SCRIPT => {
                reveal_strlit("script");
            },
            ElementTag::E_STYLE => {
                reveal_strlit("style");
            },
            ElementTag::E_LINK => {
                reveal_strlit("link");
            },
        }
    }

    /// No two tags share a spelling.
    pub proof fn lemma_spelling_is_unique(self, other: ElementTag)
        requires
            self.spelling() == other.spelling(),
        ensures
            self == other,
    {
        reveal_strlit("a");
        reveal_strlit("br");
        reveal_strlit("hr");
        reveal_strlit("div");
        reveal_strlit("svg");
        reveal_strlit("img");
        reveal_strlit("template");
        reveal_strlit("span");
        reveal_strlit("h1");
        reveal_strlit("h2");
        reveal_strlit("h3");
        reveal_strlit("h4");
        reveal_strlit("h5");
        reveal_strlit("i");
        reveal_strlit("b");
        reveal_strlit("p");
        reveal_strlit("use");
        reveal_strlit("html");
        reveal_strlit("head");
        reveal_strlit("body");
        reveal_strlit("script");
        reveal_strlit("style");
        reveal_strlit("link");
        let a = self.spelling();
        let b = other.spelling();
        assert(a.len() == b.len() && a[0] == b[0] && a[1] == b[1]);
    }
}

impl AttrKey {
    /// The spelling of every key is a name.
    pub proof fn lemma_spelling_is_name(self)
        ensures
            is_name(self.spelling()),
    {
        match self {
            AttrKey::A_HREF => {
                reveal_strlit("href");
            },
            AttrKey::A_SRC => {
                reveal_strlit("src");
            },
            AttrKey::A_CLASS => {
                reveal_strlit("class");
            },
            AttrKey::A_ALT => {
                reveal_strlit("alt");
            },
            AttrKey::A_TARGET => {
                reveal_strlit("target");
            },
            AttrKey::A_ONCLICK => {
                reveal_strlit("onclick");
            },
            AttrKey::A_ID => {
                reveal_strlit("id");
            },
            AttrKey::A_STYLE => {
                reveal_strlit("style");
            },
            AttrKey::A_REL => {
                reveal_strlit("rel");
            },
            AttrKey::A_CROSSORIGIN => {
                reveal_strlit("crossorigin");
            },
            AttrKey::A_INTEGRITY => {
                reveal_strlit("integrity");
            },
        }
    }
}

} // verus!
