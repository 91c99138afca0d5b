use vstd::prelude::*;

verus! {

/// The character between a location's namespace and its path.
#[derive(PartialEq, Eq, Structural, Clone, Copy, Debug)]
pub enum Separator {
    Colon,
    Dot,
}

pub open spec fn separator_char(s: Separator) -> char {
    match s {
        Separator::Colon => ':',
        Separator::Dot => '.',
    }
}

/// A namespaced path, `<namespace>:<path>`, or `<namespace>.<path>` where it
/// names a register namespace.
#[derive(Debug)]
pub struct ResourceLocation {
    pub namespace: String,
    pub path: String,
    pub separator: Separator,
}

pub struct LocModel {
    pub namespace: Seq<char>,
    pub path: Seq<char>,
    pub separator: Separator,
}

impl LocModel {
    pub open spec fn text(self) -> Seq<char> {
        self.namespace.push(separator_char(self.separator)) + self.path
    }

    pub open spec fn with_separator(self, separator: Separator) -> LocModel {
        LocModel { separator, ..self }
    }
}

impl View for ResourceLocation {
    type V = LocModel;

    open spec fn view(&self) -> LocModel {
        LocModel { namespace: self.namespace@, path: self.path@, separator: self.separator }
    }
}

fn push_separator(s: &mut String, sep: Separator)
    ensures
        final(s)@ == old(s)@.push(separator_char(sep)),
{
    proof {
        reveal_strlit(":");
        reveal_strlit(".");
    }
    match sep {
        Separator::Colon => s.append(":"),
        Separator::Dot => s.append("."),
    }
    assert(final(s)@ =~= old(s)@.push(separator_char(sep)));
}

impl ResourceLocation {
    /// A location written with `:`, as a function's path is.
    pub fn new(namespace: String, path: String) -> (r: Self)
        ensures
            r@ == (LocModel { namespace: namespace@, path: path@, separator: Separator::Colon }),
    {
        ResourceLocation { namespace, path, separator: Separator::Colon }
    }

    /// A location written with `.`, as a register namespace is.
    pub fn scoreboard(namespace: String, path: String) -> (r: Self)
        ensures
            r@ == (LocModel { namespace: namespace@, path: path@, separator: Separator::Dot }),
    {
        ResourceLocation { namespace, path, separator: Separator::Dot }
    }

    pub fn duplicate(&self) -> (r: Self)
        ensures
            r@ == self@,
    {
        ResourceLocation {
            namespace: self.namespace.clone(),
            path: self.path.clone(),
            separator: self.separator,
        }
    }

    /// The same location written with another separator.
    pub fn with_separator(&self, separator: Separator) -> (r: Self)
        ensures
            r@ == self@.with_separator(separator),
    {
        ResourceLocation {
            namespace: self.namespace.clone(),
            path: self.path.clone(),
            separator,
        }
    }

    /// Appends the written form of the location.
    pub fn write_to(&self, s: &mut String)
        ensures
            final(s)@ == old(s)@ + self@.text(),
    {
        s.append(self.namespace.as_str());
        push_separator(s, self.separator);
        s.append(self.path.as_str());
        assert(final(s)@ =~= old(s)@ + self@.text());
    }

    /// The written form of the location.
    pub fn to_string(&self) -> (r: String)
        ensures
            r@ == self@.text(),
    {
        let mut s = String::new();
        self.write_to(&mut s);
        assert(s@ =~= self@.text());
        s
    }
}

/// One register: a player name in a register namespace.
#[derive(Debug)]
pub struct ScoreboardEntry {
    pub scoreboard: ResourceLocation,
    pub player: String,
}

pub struct EntryModel {
    pub scoreboard: LocModel,
    pub player: Seq<char>,
}

impl EntryModel {
    /// `<player> <scoreboard>`.
    pub open spec fn text(self) -> Seq<char> {
        self.player.push(' ') + self.scoreboard.text()
    }
}

impl View for ScoreboardEntry {
    type V = EntryModel;

    open spec fn view(&self) -> EntryModel {
        EntryModel { scoreboard: self.scoreboard@, player: self.player@ }
    }
}

impl ScoreboardEntry {
    pub fn new(scoreboard: ResourceLocation, player: String) -> (r: Self)
        ensures
            r@ == (EntryModel { scoreboard: scoreboard@, player: player@ }),
    {
        ScoreboardEntry { scoreboard, player }
    }

    pub fn duplicate(&self) -> (r: Self)
        ensures
            r@ == self@,
    {
        ScoreboardEntry { scoreboard: self.scoreboard.duplicate(), player: self.player.clone() }
    }

    /// Appends the written form of the register.
    pub fn write_to(&self, s: &mut String)
        ensures
            final(s)@ == old(s)@ + self@.text(),
    {
        proof {
            reveal_strlit(" ");
        }
        s.append(self.player.as_str());
        s.append(" ");
        self.scoreboard.write_to(s);
        assert(final(s)@ =~= old(s)@ + self@.text());
    }

    /// The written form of the register.
    pub fn to_string(&self) -> (r: String)
        ensures
            r@ == self@.text(),
    {
        let mut s = String::new();
        self.write_to(&mut s);
        assert(s@ =~= self@.text());
        s
    }
}

} // verus!
