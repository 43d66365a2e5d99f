//! The catalogue of stored themes.

use vstd::prelude::*;
use vstd::string::StringExecFns;

verus! {

/// What is said of a theme, if anything.
#[derive(Debug, PartialEq)]
pub struct ThemeDescription(pub Option<String>);

/// A stored theme.
#[derive(Debug, PartialEq)]
pub struct Theme {
    pub name: String,
    pub description: ThemeDescription,
}

/// The stored themes: those that were saved, and those that were kept when
/// another theme was loaded over them.
#[derive(Debug, PartialEq)]
pub struct ThemeList {
    pub themes: Vec<Theme>,
    pub recovered_themes: Vec<Theme>,
}

/// What a theme holds.
pub struct ThemeView {
    pub name: Seq<char>,
    pub description: Option<Seq<char>>,
}

/// What a catalogue holds.
pub struct ThemeListView {
    pub themes: Seq<ThemeView>,
    pub recovered_themes: Seq<ThemeView>,
}

impl View for ThemeDescription {
    type V = Option<Seq<char>>;

    open spec fn view(&self) -> Option<Seq<char>> {
        match self.0 {
            Some(s) => Some(s@),
            None => None,
        }
    }
}

impl View for Theme {
    type V = ThemeView;

    open spec fn view(&self) -> ThemeView {
        ThemeView { name: self.name@, description: self.description@ }
    }
}

/// The views of a list of themes.
pub open spec fn theme_views(themes: Seq<Theme>) -> Seq<ThemeView> {
    Seq::new(themes.len(), |i: int| themes[i]@)
}

impl View for ThemeList {
    type V = ThemeListView;

    open spec fn view(&self) -> ThemeListView {
        ThemeListView {
            themes: theme_views(self.themes@),
            recovered_themes: theme_views(self.recovered_themes@),
        }
    }
}

impl ThemeDescription {
    /// The text shown for a description: the description, or `N/A` without one.
    pub open spec fn shown(self) -> Seq<char> {
        match self.0 {
            Some(s) => s@,
            None => "N/A"@,
        }
    }

    /// The text shown for the description.
    pub fn to_text(&self) -> (s: String)
        ensures
            s@ == self.shown(),
    {
        match &self.0 {
            Some(s) => s.clone(),
            None => String::from_str("N/A"),
        }
    }
}

impl Clone for ThemeDescription {
    fn clone(&self) -> (copy: ThemeDescription)
        ensures
            copy@ == self@,
    {
        match &self.0 {
            Some(s) => ThemeDescription(Some(s.clone())),
            None => ThemeDescription(None),
        }
    }
}

impl Clone for Theme {
    fn clone(&self) -> (copy: Theme)
        ensures
            copy@ == self@,
    {
        Theme { name: self.name.clone(), description: self.description.clone() }
    }
}

/// Appends copies of `themes` to `out`.
pub fn extend_with(out: &mut Vec<Theme>, themes: &Vec<Theme>)
    ensures
        theme_views(final(out)@) == theme_views(old(out)@) + theme_views(themes@),
{
    let mut i: usize = 0;
    while i < themes.len()
        invariant
            i <= themes.len(),
            theme_views(out@) == theme_views(old(out)@) + theme_views(themes@).take(i as int),
        decreases themes.len() - i,
    {
        let ghost before = out@;
        out.push(themes[i].clone());
        assert(theme_views(out@) =~= theme_views(before).push(themes@[i as int]@));
        i += 1;
    }
}

impl Clone for ThemeList {
    fn clone(&self) -> (copy: ThemeList)
        ensures
            copy@ == self@,
    {
        let mut themes: Vec<Theme> = Vec::new();
        extend_with(&mut themes, &self.themes);
        let mut recovered_themes: Vec<Theme> = Vec::new();
        extend_with(&mut recovered_themes, &self.recovered_themes);
        ThemeList { themes, recovered_themes }
    }
}

impl Default for ThemeList {
    /// The empty catalogue.
    fn default() -> (list: ThemeList)
        ensures
            list@.themes.len() == 0,
            list@.recovered_themes.len() == 0,
    {
        ThemeList { themes: Vec::new(), recovered_themes: Vec::new() }
    }
}

} // verus!
