//! The plugins an engine has loaded.
//!
//! A directory is scanned for platform dynamic libraries; each that loads contributes what it
//! says about itself. Opening the libraries happens outside; which files count, and what is kept
//! of each, is decided here.

use vstd::prelude::*;

use crate::text::Characters;
use crate::text::SameText;

verus! {

/// What a plugin is capable of.
#[derive(Debug, Clone, Copy, PartialEq, Eq, Structural)]
pub enum PluginKind {
    Sample,
    Protocol,
    Populator,
    Adapter,
}

/// What a kind is called.
pub open spec fn kind_text(kind: PluginKind) -> Seq<char> {
    match kind {
        PluginKind::Sample => "sample"@,
        PluginKind::Protocol => "protocol"@,
        PluginKind::Populator => "populator"@,
        PluginKind::Adapter => "adapter"@,
    }
}

/// What a kind is called, for transport and display.
pub fn kind_str(kind: PluginKind) -> (strKind: &'static str)
    ensures
        strKind@ == kind_text(kind),
{
    match kind {
        PluginKind::Sample => "sample",
        PluginKind::Protocol => "protocol",
        PluginKind::Populator => "populator",
        PluginKind::Adapter => "adapter",
    }
}

/// What is known of a loaded plugin.
#[derive(Debug, Clone, PartialEq, Eq)]
pub struct PluginInfo {
    /// Plugin-declared unique name.
    pub name: String,
    /// Capability kind.
    pub kind: String,
    /// Plugin's own version.
    pub version: String,
    /// Human-readable description returned by the plugin.
    pub description: String,
    /// Path the library was loaded from.
    pub path: String,
}

/// A protocol plugin of a name.
pub open spec fn is_protocol(info: PluginInfo, name: Seq<char>) -> bool {
    info.kind@ == "protocol"@ && info.name@ == name
}

/// Every plugin that loaded successfully, in the order they were loaded.
pub struct PluginHost {
    infos: Vec<PluginInfo>,
}

impl View for PluginHost {
    type V = Seq<PluginInfo>;

    closed spec fn view(&self) -> Seq<PluginInfo> {
        self.infos@
    }
}

impl PluginHost {
    /// A host with no plugins, which is what a missing directory yields: a fresh checkout still
    /// boots.
    pub fn new() -> (host: Self)
        ensures
            host@ == Seq::<PluginInfo>::empty(),
    {
        PluginHost { infos: Vec::new() }
    }

    /// Keep what a library that loaded says about itself.
    pub fn add(
        &mut self,
        name: String,
        kind: PluginKind,
        version: String,
        description: String,
        path: String,
    )
        ensures
            final(self)@.len() == old(self)@.len() + 1,
            final(self)@.drop_last() == old(self)@,
            final(self)@.last().name == name,
            final(self)@.last().kind@ == kind_text(kind),
            final(self)@.last().version == version,
            final(self)@.last().description == description,
            final(self)@.last().path == path,
    {
        self.infos.push(
            PluginInfo { name, kind: kind_str(kind).to_string(), version, description, path },
        );
        assert(self@.drop_last() =~= old(self)@);
    }

    /// Metadata for all loaded plugins.
    pub fn infos(&self) -> (infos: &Vec<PluginInfo>)
        ensures
            infos@ == self@,
    {
        &self.infos
    }

    /// Number of loaded plugins.
    pub fn len(&self) -> (uCount: usize)
        ensures
            uCount == self@.len(),
    {
        self.infos.len()
    }

    /// The first protocol plugin of a name, by its place among the loaded plugins; `None` if no
    /// protocol plugin with that name is loaded.
    pub fn FindProtocol(&self, strName: &str) -> (optUIndex: Option<usize>)
        ensures
            match optUIndex {
                Some(i) => {
                    &&& i < self@.len()
                    &&& is_protocol(self@[i as int], strName@)
                    &&& forall|j: int| 0 <= j < i ==> !is_protocol(#[trigger] self@[j], strName@)
                },
                None => forall|j: int|
                    0 <= j < self@.len() ==> !is_protocol(#[trigger] self@[j], strName@),
            },
    {
        let mut uAt: usize = 0;
        while uAt < self.infos.len()
            invariant
                uAt <= self.infos@.len(),
                forall|j: int| 0 <= j < uAt ==> !is_protocol(#[trigger] self.infos@[j], strName@),
            decreases self.infos@.len() - uAt,
        {
            if SameText(self.infos[uAt].kind.as_str(), "protocol") && SameText(
                self.infos[uAt].name.as_str(),
                strName,
            ) {
                return Some(uAt);
            }
            uAt += 1;
        }
        None
    }

    /// Whether no plugins are loaded.
    pub fn is_empty(&self) -> (bIsEmpty: bool)
        ensures
            bIsEmpty == (self@.len() == 0),
    {
        self.infos.len() == 0
    }
}

/// The conventional runtime plugin directory, relative to the current working directory.
pub fn default_plugin_dir() -> (strDirectory: &'static str)
    ensures
        strDirectory@ == "plugins.d"@,
{
    "plugins.d"
}

/// The place of the last dot in a text, or -1.
pub open spec fn last_dot(text: Seq<char>) -> int
    decreases text.len(),
{
    if text.len() == 0 {
        -1
    } else if text.last() == '.' {
        text.len() - 1
    } else {
        last_dot(text.drop_last())
    }
}

/// The extension of a file name: what follows its last dot, unless it has none or starts with it.
pub open spec fn extension(name: Seq<char>) -> Option<Seq<char>> {
    if last_dot(name) <= 0 {
        None
    } else {
        Some(name.skip(last_dot(name) + 1))
    }
}

/// True if a file name has a platform dynamic-library extension.
pub fn is_dynamic_library(strFileName: &str) -> (bIsLibrary: bool)
    ensures
        bIsLibrary == (extension(strFileName@) == Some("so"@) || extension(strFileName@) == Some(
            "dll"@,
        ) || extension(strFileName@) == Some("dylib"@)),
{
    let vecName = Characters(strFileName);
    let mut uEnd: usize = vecName.len();
    assert(vecName@.take(uEnd as int) =~= vecName@);
    while uEnd > 0 && vecName[uEnd - 1] != '.'
        invariant
            uEnd <= vecName@.len(),
            last_dot(vecName@) == last_dot(vecName@.take(uEnd as int)),
        decreases uEnd,
    {
        assert(vecName@.take(uEnd as int).drop_last() =~= vecName@.take(uEnd - 1));
        uEnd = uEnd - 1;
    }
    assert(last_dot(vecName@) == uEnd - 1);
    if uEnd <= 1 {
        return false;
    }
    EndsWith(&vecName, uEnd, "so") || EndsWith(&vecName, uEnd, "dll") || EndsWith(
        &vecName,
        uEnd,
        "dylib",
    )
}

/// Whether what follows a place in a text is the given text.
fn EndsWith(vecText: &Vec<char>, uFrom: usize, strEnd: &str) -> (bEnds: bool)
    requires
        uFrom <= vecText@.len(),
    ensures
        bEnds == (vecText@.skip(uFrom as int) == strEnd@),
{
    let vecEnd = Characters(strEnd);
    if vecText.len() - uFrom != vecEnd.len() {
        return false;
    }
    let mut uAt: usize = 0;
    while uAt < vecEnd.len()
        invariant
            uFrom <= vecText@.len(),
            vecText@.len() - uFrom == vecEnd@.len(),
            uAt <= vecEnd@.len(),
            forall|i: int| 0 <= i < uAt ==> vecText@[uFrom + i] == #[trigger] vecEnd@[i],
            vecEnd@ == strEnd@,
        decreases vecEnd@.len() - uAt,
    {
        assert(uFrom + uAt < vecText.len());
        if vecText[uFrom + uAt] != vecEnd[uAt] {
            assert(vecText@.skip(uFrom as int)[uAt as int] != vecEnd@[uAt as int]);
            return false;
        }
        uAt += 1;
    }
    assert(vecText@.skip(uFrom as int) =~= strEnd@);
    true
}

} // verus!
