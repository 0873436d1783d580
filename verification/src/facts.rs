//! What is known of the machine that the program runs on.
//!
//! The library reads no file and no environment variable. It works on the
//! answers that it is given, and where one is missing it returns the question.
//! The caller looks the answer up, adds it, and calls again.

use crate::text::{opt_text, same, texts};
use vstd::prelude::*;
use vstd::string::*;

verus! {

/// Something that must be looked up on the machine.
#[derive(Debug, Clone, PartialEq, Eq)]
pub enum Question {
    /// The canonical path of a configuration file, and its lines.
    ConfigFile(String),
    /// The paths that match a pattern, in order.
    Listing(String),
    /// Whether there is something at a path.
    Presence(String),
    /// The text of a file.
    Document(String),
    /// The value of an environment variable.
    Variable(String),
}

/// The model of a `Question`.
pub enum QuestionView {
    ConfigFile(Seq<char>),
    Listing(Seq<char>),
    Presence(Seq<char>),
    Document(Seq<char>),
    Variable(Seq<char>),
}

impl View for Question {
    type V = QuestionView;

    open spec fn view(&self) -> QuestionView {
        match self {
            Question::ConfigFile(s) => QuestionView::ConfigFile(s@),
            Question::Listing(s) => QuestionView::Listing(s@),
            Question::Presence(s) => QuestionView::Presence(s@),
            Question::Document(s) => QuestionView::Document(s@),
            Question::Variable(s) => QuestionView::Variable(s@),
        }
    }
}

/// The value that is known for a name.
#[derive(Debug, Clone)]
pub struct Answer<T> {
    pub name: String,
    pub value: T,
}

/// A configuration file: the path that identifies it, and its lines where it
/// can be read.
#[derive(Debug, Clone)]
pub struct ConfigFile {
    pub canonical: String,
    pub lines: Option<Vec<String>>,
}

/// The model of a `ConfigFile`.
pub struct ConfigFileView {
    pub canonical: Seq<char>,
    pub lines: Option<Seq<Seq<char>>>,
}

impl View for ConfigFile {
    type V = ConfigFileView;

    open spec fn view(&self) -> ConfigFileView {
        ConfigFileView {
            canonical: self.canonical@,
            lines: match self.lines {
                Some(v) => Some(texts(v@)),
                None => None,
            },
        }
    }
}

/// Everything that is known of the machine. Where two answers have the same
/// name, the first one counts.
#[derive(Debug, Clone)]
pub struct Facts {
    /// The home directory of the user.
    pub home: Option<String>,
    pub config_files: Vec<Answer<ConfigFile>>,
    pub listings: Vec<Answer<Vec<String>>>,
    pub presences: Vec<Answer<bool>>,
    pub documents: Vec<Answer<Option<String>>>,
    pub variables: Vec<Answer<Option<String>>>,
}

/// The position of the first answer with a name, or the number of answers where
/// there is none.
pub open spec fn place<T>(v: Seq<Answer<T>>, name: Seq<char>) -> int
    decreases v.len(),
{
    if v.len() == 0 || v[0].name@ == name {
        0
    } else {
        1 + place(v.drop_first(), name)
    }
}

proof fn lemma_place<T>(v: Seq<Answer<T>>, name: Seq<char>, n: int)
    requires
        0 <= n <= v.len(),
        forall|k: int| 0 <= k < n ==> (#[trigger] v[k]).name@ != name,
        n < v.len() ==> v[n].name@ == name,
    ensures
        place(v, name) == n,
    decreases v.len(),
{
    if n > 0 {
        assert(v[0].name@ != name);
        assert forall|k: int| 0 <= k < n - 1 implies (#[trigger] v.drop_first()[k]).name@
            != name by {
            assert(v.drop_first()[k] == v[k + 1]);
        }
        lemma_place(v.drop_first(), name, n - 1);
    }
}

/// An answer that is found has the name that was looked for.
pub proof fn lemma_place_bounds<T>(v: Seq<Answer<T>>, name: Seq<char>)
    ensures
        0 <= place(v, name) <= v.len(),
        place(v, name) < v.len() ==> v[place(v, name)].name@ == name,
    decreases v.len(),
{
    if v.len() > 0 && v[0].name@ != name {
        lemma_place_bounds(v.drop_first(), name);
    }
}

fn find<T>(v: &Vec<Answer<T>>, name: &str) -> (r: Option<usize>)
    ensures
        match r {
            Some(i) => i < v@.len() && place(v@, name@) == i,
            None => place(v@, name@) == v@.len(),
        },
{
    let mut i: usize = 0;
    while i < v.len()
        invariant
            i <= v.len(),
            forall|k: int| 0 <= k < i ==> (#[trigger] v@[k]).name@ != name@,
        decreases v.len() - i,
    {
        if same(v[i].name.as_str(), name) {
            proof {
                lemma_place(v@, name@, i as int);
            }
            return Some(i);
        }
        i += 1;
    }
    proof {
        lemma_place(v@, name@, i as int);
    }
    None
}

impl Facts {
    /// The configuration file at a path.
    pub open spec fn config_file(&self, path: Seq<char>) -> Option<ConfigFileView> {
        let i = place(self.config_files@, path);
        if i < self.config_files@.len() {
            Some(self.config_files@[i].value@)
        } else {
            None
        }
    }

    /// The paths that match a pattern.
    pub open spec fn listing(&self, pattern: Seq<char>) -> Option<Seq<Seq<char>>> {
        let i = place(self.listings@, pattern);
        if i < self.listings@.len() {
            Some(texts(self.listings@[i].value@))
        } else {
            None
        }
    }

    /// Whether there is something at a path.
    pub open spec fn presence(&self, path: Seq<char>) -> Option<bool> {
        let i = place(self.presences@, path);
        if i < self.presences@.len() {
            Some(self.presences@[i].value)
        } else {
            None
        }
    }

    /// The text of a file; there is none where it cannot be read.
    pub open spec fn document(&self, path: Seq<char>) -> Option<Option<Seq<char>>> {
        let i = place(self.documents@, path);
        if i < self.documents@.len() {
            Some(opt_text(self.documents@[i].value))
        } else {
            None
        }
    }

    /// The value of an environment variable; there is none where it is not set.
    pub open spec fn variable(&self, name: Seq<char>) -> Option<Option<Seq<char>>> {
        let i = place(self.variables@, name);
        if i < self.variables@.len() {
            Some(opt_text(self.variables@[i].value))
        } else {
            None
        }
    }

    /// No answers yet.
    pub fn new(home: Option<String>) -> (r: Facts)
        ensures
            r.home == home,
            forall|s: Seq<char>| #[trigger] r.config_file(s) is None,
            forall|s: Seq<char>| #[trigger] r.listing(s) is None,
            forall|s: Seq<char>| #[trigger] r.presence(s) is None,
            forall|s: Seq<char>| #[trigger] r.document(s) is None,
            forall|s: Seq<char>| #[trigger] r.variable(s) is None,
    {
        Facts {
            home,
            config_files: Vec::new(),
            listings: Vec::new(),
            presences: Vec::new(),
            documents: Vec::new(),
            variables: Vec::new(),
        }
    }

    /// Looks a configuration file up.
    pub fn find_config_file(&self, path: &str) -> (r: Option<&ConfigFile>)
        ensures
            match r {
                Some(c) => self.config_file(path@) == Some(c@),
                None => self.config_file(path@) is None,
            },
    {
        match find(&self.config_files, path) {
            Some(i) => Some(&self.config_files[i].value),
            None => None,
        }
    }

    /// Looks the paths that match a pattern up.
    pub fn find_listing(&self, pattern: &str) -> (r: Option<&Vec<String>>)
        ensures
            match r {
                Some(v) => self.listing(pattern@) == Some(texts(v@)),
                None => self.listing(pattern@) is None,
            },
    {
        match find(&self.listings, pattern) {
            Some(i) => Some(&self.listings[i].value),
            None => None,
        }
    }

    /// Looks up whether there is something at a path.
    pub fn find_presence(&self, path: &str) -> (r: Option<bool>)
        ensures
            r == self.presence(path@),
    {
        match find(&self.presences, path) {
            Some(i) => Some(self.presences[i].value),
            None => None,
        }
    }

    /// Looks the text of a file up.
    pub fn find_document(&self, path: &str) -> (r: Option<&Option<String>>)
        ensures
            match r {
                Some(t) => self.document(path@) == Some(opt_text(*t)),
                None => self.document(path@) is None,
            },
    {
        match find(&self.documents, path) {
            Some(i) => Some(&self.documents[i].value),
            None => None,
        }
    }

    /// Looks an environment variable up.
    pub fn find_variable(&self, name: &str) -> (r: Option<&Option<String>>)
        ensures
            match r {
                Some(t) => self.variable(name@) == Some(opt_text(*t)),
                None => self.variable(name@) is None,
            },
    {
        match find(&self.variables, name) {
            Some(i) => Some(&self.variables[i].value),
            None => None,
        }
    }
}

} // verus!
