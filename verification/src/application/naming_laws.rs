//! Which files are taken for plugins.

use vstd::prelude::*;

use crate::application::plugin_host::extension;
use crate::application::plugin_host::is_protocol;
use crate::application::plugin_host::kind_text;
use crate::application::plugin_host::last_dot;
use crate::application::plugin_host::PluginInfo;
use crate::application::plugin_host::PluginKind;

verus! {

proof fn lemma_last_dot(stem: Seq<char>, ending: Seq<char>)
    requires
        !ending.contains('.'),
    ensures
        last_dot(stem + seq!['.'] + ending) == stem.len(),
    decreases ending.len(),
{
    let name = stem + seq!['.'] + ending;
    if ending.len() == 0 {
        assert(name.last() == '.');
    } else {
        assert(name.last() == ending.last());
        assert(ending.contains(ending[ending.len() - 1]));
        assert(name.drop_last() =~= stem + seq!['.'] + ending.drop_last());
        assert forall|c: char| ending.drop_last().contains(c) implies ending.contains(c) by {
            let i = choose|i: int| 0 <= i < ending.drop_last().len() && ending.drop_last()[i] == c;
            assert(ending[i] == c);
        }
        lemma_last_dot(stem, ending.drop_last());
    }
}

/// The extension of a file name is what stands behind its last dot, whatever stands in front of it.
pub proof fn law_the_extension_is_behind_the_last_dot(stem: Seq<char>, ending: Seq<char>)
    requires
        stem.len() > 0,
        !ending.contains('.'),
    ensures
        extension(stem + seq!['.'] + ending) == Some(ending),
{
    lemma_last_dot(stem, ending);
    assert((stem + seq!['.'] + ending).skip(stem.len() as int + 1) =~= ending);
}

proof fn lemma_no_dot(name: Seq<char>)
    requires
        !name.contains('.'),
    ensures
        last_dot(name) == -1,
    decreases name.len(),
{
    if name.len() > 0 {
        assert(name.contains(name[name.len() - 1]));
        assert forall|c: char| name.drop_last().contains(c) implies name.contains(c) by {
            let i = choose|i: int| 0 <= i < name.drop_last().len() && name.drop_last()[i] == c;
            assert(name[i] == c);
        }
        lemma_no_dot(name.drop_last());
    }
}

/// A file name without a dot has no extension, and neither has one whose only dot is in front.
pub proof fn law_a_leading_dot_is_no_extension(name: Seq<char>)
    requires
        !name.contains('.'),
    ensures
        extension(name) is None,
        extension(seq!['.'] + name) is None,
{
    lemma_no_dot(name);
    lemma_last_dot(seq![], name);
    assert(Seq::<char>::empty() + seq!['.'] + name =~= seq!['.'] + name);
}

/// Plugins of different kinds are called differently, and a protocol is found by the kind and the
/// name it declares.
pub proof fn law_kinds_are_told_apart(a: PluginKind, b: PluginKind, info: PluginInfo)
    ensures
        kind_text(a) == kind_text(b) ==> a == b,
        kind_text(PluginKind::Protocol) == info.kind@ ==> is_protocol(info, info.name@),
        is_protocol(info, info.name@) && info.kind@ == kind_text(a) ==> a is Protocol,
{
    reveal_strlit("sample");
    reveal_strlit("protocol");
    reveal_strlit("populator");
    reveal_strlit("adapter");
    assert("sample"@.len() == 6 && "protocol"@.len() == 8 && "populator"@.len() == 9
        && "adapter"@.len() == 7);
}

} // verus!
