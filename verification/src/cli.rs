//! The command line: which command it names, and what the commands are given.

use vstd::prelude::*;

use crate::bytes::ReadBe32;
use crate::core_domain::ecu::Ecu;
use crate::ecu::sample::is_engine_ecu;
use crate::ecu::sample::BuildEngineEcu;
use crate::pcap::classic::is_classic;
use crate::pcap::pcapng::is_pcapng;
use crate::text::SameText;

verus! {

/// What the command line asks for.
#[derive(Debug, Clone, PartialEq, Eq)]
pub enum Cli {
    /// Serve the HTTP API. Every address given, in order: the last that reads as an address is the
    /// one to listen on. The plugin directory is the last one given.
    Serve { vecAddresses: Vec<String>, optStrPlugins: Option<String> },
    /// Run the scripted diagnostic exchange.
    Demo { optStrPlugins: Option<String> },
    /// Rebuild a vehicle from a recorded trace.
    Reconstruct { strPath: String },
    /// Show the help.
    Help,
}

/// A command as a mathematical value.
pub ghost enum CliView {
    Serve { addresses: Seq<Seq<char>>, plugins: Option<Seq<char>> },
    Demo { plugins: Option<Seq<char>> },
    Reconstruct { path: Seq<char> },
    Help,
}

/// The texts of a list of strings.
pub open spec fn string_texts(list: Seq<String>) -> Seq<Seq<char>> {
    Seq::new(list.len(), |i: int| list[i]@)
}

/// The text of an optional string.
pub open spec fn option_text(text: Option<String>) -> Option<Seq<char>> {
    match text {
        Some(text) => Some(text@),
        None => None,
    }
}

impl View for Cli {
    type V = CliView;

    open spec fn view(&self) -> CliView {
        match self {
            Cli::Serve { vecAddresses, optStrPlugins } => CliView::Serve {
                addresses: string_texts(vecAddresses@),
                plugins: option_text(*optStrPlugins),
            },
            Cli::Demo { optStrPlugins } => CliView::Demo { plugins: option_text(*optStrPlugins) },
            Cli::Reconstruct { strPath } => CliView::Reconstruct { path: strPath@ },
            Cli::Help => CliView::Help,
        }
    }
}

/// What has been read of a command line.
pub ghost struct ArgumentsView {
    pub addresses: Seq<Seq<char>>,
    pub plugins: Option<Seq<char>>,
    pub positional: Seq<Seq<char>>,
}

/// A word that asks for help.
pub open spec fn asks_for_help(word: Seq<char>) -> bool {
    word == "-h"@ || word == "--help"@ || word == "help"@
}

/// The command that what was read comes to: the first positional word names it, and serving is the
/// default.
pub open spec fn command(read: ArgumentsView) -> CliView {
    if read.positional.len() == 0 || read.positional[0] == "serve"@ {
        CliView::Serve { addresses: read.addresses, plugins: read.plugins }
    } else if read.positional[0] == "demo"@ {
        CliView::Demo { plugins: read.plugins }
    } else if read.positional[0] == "reconstruct"@ && read.positional.len() > 1 {
        CliView::Reconstruct { path: read.positional[1] }
    } else {
        CliView::Help
    }
}

/// What a command line comes to from a word on. An option takes the word behind it, whatever that
/// is.
pub open spec fn parsed(words: Seq<Seq<char>>, at: int, read: ArgumentsView) -> CliView
    decreases words.len() - at,
{
    if at >= words.len() {
        command(read)
    } else if asks_for_help(words[at]) {
        CliView::Help
    } else if words[at] == "--addr"@ {
        if at + 1 < words.len() {
            parsed(
                words,
                at + 2,
                ArgumentsView { addresses: read.addresses.push(words[at + 1]), ..read },
            )
        } else {
            command(read)
        }
    } else if words[at] == "--plugins"@ {
        if at + 1 < words.len() {
            parsed(words, at + 2, ArgumentsView { plugins: Some(words[at + 1]), ..read })
        } else {
            command(read)
        }
    } else {
        parsed(
            words,
            at + 1,
            ArgumentsView { positional: read.positional.push(words[at]), ..read },
        )
    }
}

impl Cli {
    /// Read a command line, without the program's own name.
    pub fn parse(vecArguments: &Vec<String>) -> (command: Self)
        ensures
            command@ == parsed(
                string_texts(vecArguments@),
                0,
                ArgumentsView { addresses: seq![], plugins: None, positional: seq![] },
            ),
    {
        let ghost words = string_texts(vecArguments@);
        let mut vecAddresses: Vec<String> = Vec::new();
        let mut optStrPlugins: Option<String> = None;
        // Positional arguments in order: the command, then the command's own argument.
        let mut vecPositional: Vec<String> = Vec::new();
        let mut uAt: usize = 0;
        let ghost whole = parsed(
            words,
            0,
            ArgumentsView { addresses: seq![], plugins: None, positional: seq![] },
        );
        assert(string_texts(vecAddresses@) =~= seq![]);
        assert(string_texts(vecPositional@) =~= seq![]);
        while uAt < vecArguments.len()
            invariant
                uAt <= vecArguments@.len(),
                words == string_texts(vecArguments@),
                whole == parsed(
                    words,
                    0,
                    ArgumentsView { addresses: seq![], plugins: None, positional: seq![] },
                ),
                parsed(
                    words,
                    uAt as int,
                    ArgumentsView {
                        addresses: string_texts(vecAddresses@),
                        plugins: option_text(optStrPlugins),
                        positional: string_texts(vecPositional@),
                    },
                ) == whole,
            decreases vecArguments@.len() - uAt,
        {
            let strWord = vecArguments[uAt].as_str();
            let ghost addresses = vecAddresses@;
            let ghost positional = vecPositional@;
            if SameText(strWord, "-h") || SameText(strWord, "--help") || SameText(strWord, "help") {
                return Cli::Help;
            }
            uAt += 1;
            if SameText(strWord, "--addr") {
                if uAt < vecArguments.len() {
                    vecAddresses.push(vecArguments[uAt].clone());
                    assert(string_texts(vecAddresses@) =~= string_texts(addresses).push(
                        words[uAt as int],
                    ));
                    uAt += 1;
                }
            } else if SameText(strWord, "--plugins") {
                if uAt < vecArguments.len() {
                    optStrPlugins = Some(vecArguments[uAt].clone());
                    uAt += 1;
                }
            } else {
                vecPositional.push(strWord.to_string());
                assert(string_texts(vecPositional@) =~= string_texts(positional).push(
                    words[uAt - 1],
                ));
            }
        }
        if vecPositional.len() == 0 || SameText(vecPositional[0].as_str(), "serve") {
            return Cli::Serve { vecAddresses, optStrPlugins };
        }
        if SameText(vecPositional[0].as_str(), "demo") {
            return Cli::Demo { optStrPlugins };
        }
        if SameText(vecPositional[0].as_str(), "reconstruct") && vecPositional.len() > 1 {
            return Cli::Reconstruct { strPath: vecPositional[1].clone() };
        }
        Cli::Help
    }
}

/// True when these bytes begin like a pcap or pcapng file. A CAN log is text and starts with none
/// of their magics.
pub fn IsCapture(vecBytes: &[u8]) -> (bIsCapture: bool)
    ensures
        bIsCapture == (is_classic(vecBytes@) || is_pcapng(vecBytes@)),
{
    if vecBytes.len() < 4 {
        return false;
    }
    let u32Leading: u32 = ReadBe32(vecBytes, 0);
    u32Leading == 0xA1B2_C3D4 || u32Leading == 0xD4C3_B2A1 || u32Leading == 0xA1B2_3C4D
        || u32Leading == 0x4D3C_B2A1 || u32Leading == 0x0A0D_0D0A
}

/// The ECU the scripted exchange talks to.
pub fn MakeDemoEcu() -> (ecu: Ecu)
    ensures
        is_engine_ecu(ecu),
{
    BuildEngineEcu()
}

} // verus!
