//! What a command line asks for.

use vstd::prelude::*;

use crate::cli::parsed;
use crate::cli::ArgumentsView;
use crate::cli::CliView;

verus! {

proof fn lemma_words_behind(front: Seq<Seq<char>>, rest: Seq<Seq<char>>, at: int, read: ArgumentsView)
    requires
        0 <= at <= rest.len(),
    ensures
        parsed(front + rest, front.len() + at, read) == parsed(rest, at, read),
    decreases rest.len() - at,
{
    let words = front + rest;
    if at < rest.len() {
        assert(words[front.len() + at] == rest[at]);
        if rest[at] == "--addr"@ || rest[at] == "--plugins"@ {
            if at + 1 < rest.len() {
                assert(words[front.len() + at + 1] == rest[at + 1]);
                lemma_words_behind(
                    front,
                    rest,
                    at + 2,
                    ArgumentsView { addresses: read.addresses.push(rest[at + 1]), ..read },
                );
                lemma_words_behind(
                    front,
                    rest,
                    at + 2,
                    ArgumentsView { plugins: Some(rest[at + 1]), ..read },
                );
            }
        } else {
            lemma_words_behind(
                front,
                rest,
                at + 1,
                ArgumentsView { positional: read.positional.push(rest[at]), ..read },
            );
        }
    }
}

/// An address option adds the word behind it to the addresses, whatever word that is, and the rest
/// of the line is read on with it.
pub proof fn law_each_address_is_added(rest: Seq<Seq<char>>, address: Seq<char>, read: ArgumentsView)
    ensures
        parsed(seq!["--addr"@, address] + rest, 0, read) == parsed(
            rest,
            0,
            ArgumentsView { addresses: read.addresses.push(address), ..read },
        ),
{
    reveal_strlit("--addr");
    reveal_strlit("-h");
    reveal_strlit("--help");
    reveal_strlit("help");
    let front = seq!["--addr"@, address];
    let words = front + rest;
    assert(words[0] == "--addr"@ && words[1] == address);
    assert("--addr"@.len() == 6 && "--help"@.len() == 6);
    assert("--addr"@[2] == 'a' && "--help"@[2] == 'h');
    lemma_words_behind(
        front,
        rest,
        0,
        ArgumentsView { addresses: read.addresses.push(address), ..read },
    );
}

/// A plugin option names the directory to look in, and the last one on the line counts.
pub proof fn law_the_last_plugin_directory_counts(
    rest: Seq<Seq<char>>,
    directory: Seq<char>,
    read: ArgumentsView,
)
    ensures
        parsed(seq!["--plugins"@, directory] + rest, 0, read) == parsed(
            rest,
            0,
            ArgumentsView { plugins: Some(directory), ..read },
        ),
{
    reveal_strlit("--addr");
    reveal_strlit("--plugins");
    reveal_strlit("-h");
    reveal_strlit("--help");
    reveal_strlit("help");
    let front = seq!["--plugins"@, directory];
    let words = front + rest;
    assert(words[0] == "--plugins"@ && words[1] == directory);
    assert("--plugins"@.len() == 9);
    lemma_words_behind(front, rest, 0, ArgumentsView { plugins: Some(directory), ..read });
}

/// Any other word is a positional one, unless it asks for help, which ends the reading.
pub proof fn law_other_words_are_positional(
    rest: Seq<Seq<char>>,
    word: Seq<char>,
    read: ArgumentsView,
)
    ensures
        word != "--addr"@ && word != "--plugins"@ && word != "-h"@ && word != "--help"@ && word
            != "help"@ ==> parsed(seq![word] + rest, 0, read) == parsed(
            rest,
            0,
            ArgumentsView { positional: read.positional.push(word), ..read },
        ),
        word == "-h"@ || word == "--help"@ || word == "help"@ ==> parsed(seq![word] + rest, 0, read)
            == CliView::Help,
{
    let front = seq![word];
    let words = front + rest;
    assert(words[0] == word);
    lemma_words_behind(
        front,
        rest,
        0,
        ArgumentsView { positional: read.positional.push(word), ..read },
    );
}

/// At the end of the line the first positional word is the command: without one, or with `serve`,
/// the engine serves at every address given; `demo` runs the scripted exchange; `reconstruct` reads
/// the file the second word names; anything else is answered with the usage.
pub proof fn law_the_first_word_is_the_command(read: ArgumentsView)
    ensures
        ({
            let asked = parsed(seq![], 0, read);
            &&& read.positional.len() == 0 ==> asked == (CliView::Serve {
                addresses: read.addresses,
                plugins: read.plugins,
            })
            &&& read.positional.len() > 0 && read.positional[0] == "serve"@ ==> asked
                == (CliView::Serve { addresses: read.addresses, plugins: read.plugins })
            &&& read.positional.len() > 0 && read.positional[0] == "demo"@ ==> asked
                == (CliView::Demo { plugins: read.plugins })
            &&& read.positional.len() > 1 && read.positional[0] == "reconstruct"@ ==> asked
                == (CliView::Reconstruct { path: read.positional[1] })
            &&& read.positional.len() == 1 && read.positional[0] == "reconstruct"@ ==> asked
                == CliView::Help
            &&& read.positional.len() > 0 && read.positional[0] != "serve"@ && read.positional[0]
                != "demo"@ && read.positional[0] != "reconstruct"@ ==> asked == CliView::Help
        }),
{
    reveal_strlit("serve");
    reveal_strlit("demo");
    reveal_strlit("reconstruct");
    assert("serve"@.len() == 5 && "demo"@.len() == 4 && "reconstruct"@.len() == 11);
}

} // verus!
