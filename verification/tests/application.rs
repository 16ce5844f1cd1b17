//! Plugins, the command line and the clock.

#![allow(non_snake_case, non_upper_case_globals)]

use vehicle_sim::application::plugin_host::default_plugin_dir;
use vehicle_sim::application::plugin_host::is_dynamic_library;
use vehicle_sim::application::plugin_host::kind_str;
use vehicle_sim::application::plugin_host::PluginHost;
use vehicle_sim::application::plugin_host::PluginKind;
use vehicle_sim::cli::Cli;
use vehicle_sim::cli::IsCapture;
use vehicle_sim::cli::MakeDemoEcu;
use vehicle_sim::clock::NowMs;
use vehicle_sim::clock::ReportedMs;

#[test]
fn missing_directory_yields_empty_host() {
    let host = PluginHost::new();
    assert!(host.is_empty());
    assert_eq!(host.len(), 0);
}

#[test]
fn recognizes_dynamic_library_extensions() {
    assert!(is_dynamic_library("libfoo.so"));
    assert!(is_dynamic_library("foo.dll"));
    assert!(is_dynamic_library("libfoo.dylib"));
    assert!(!is_dynamic_library("README.md"));
    assert!(!is_dynamic_library("foo"));
}

#[test]
fn a_hidden_file_and_a_longer_extension_are_no_libraries() {
    assert!(!is_dynamic_library(".so"));
    assert!(!is_dynamic_library("libfoo.so.1"));
    assert!(is_dynamic_library("archive.tar.so"));
}

#[test]
fn a_host_lists_what_was_added_and_finds_protocols_only() {
    let mut host = PluginHost::new();
    let texts = |name: &str| {
        (
            name.to_string(),
            "1.0".to_string(),
            "words".to_string(),
            "path".to_string(),
        )
    };
    let (name, version, description, path) = texts("uds");
    host.add(name, PluginKind::Sample, version, description, path);
    assert_eq!(host.FindProtocol("uds"), None);
    let (name, version, description, path) = texts("uds");
    host.add(name, PluginKind::Protocol, version, description, path);
    assert_eq!(host.FindProtocol("uds"), Some(1));
    assert_eq!(host.FindProtocol("kwp"), None);
    assert_eq!(host.len(), 2);
    assert!(!host.is_empty());
    assert_eq!(host.infos()[1].kind, "protocol");
    assert_eq!(host.infos()[0].kind, "sample");
    assert_eq!(host.infos()[0].version, "1.0");
}

#[test]
fn plugin_kinds_have_names() {
    assert_eq!(kind_str(PluginKind::Sample), "sample");
    assert_eq!(kind_str(PluginKind::Protocol), "protocol");
    assert_eq!(kind_str(PluginKind::Populator), "populator");
    assert_eq!(kind_str(PluginKind::Adapter), "adapter");
    assert_eq!(default_plugin_dir(), "plugins.d");
}

fn Parse(arrWords: &[&str]) -> Cli {
    Cli::parse(&arrWords.iter().map(|word| word.to_string()).collect())
}

#[test]
fn serving_is_the_default_command() {
    assert_eq!(
        Parse(&[]),
        Cli::Serve {
            vecAddresses: vec![],
            optStrPlugins: None
        }
    );
    assert_eq!(
        Parse(&["--addr", "127.0.0.1:9", "serve", "--plugins", "p"]),
        Cli::Serve {
            vecAddresses: vec!["127.0.0.1:9".to_string()],
            optStrPlugins: Some("p".to_string())
        }
    );
}

#[test]
fn other_commands_are_named_first() {
    assert_eq!(
        Parse(&["demo"]),
        Cli::Demo {
            optStrPlugins: None
        }
    );
    assert_eq!(
        Parse(&["reconstruct", "trace.log"]),
        Cli::Reconstruct {
            strPath: "trace.log".to_string()
        }
    );
    assert_eq!(Parse(&["reconstruct"]), Cli::Help);
    assert_eq!(Parse(&["serve", "--help"]), Cli::Help);
    assert_eq!(Parse(&["dance"]), Cli::Help);
    assert_eq!(
        Parse(&["serve", "--addr"]),
        Cli::Serve {
            vecAddresses: vec![],
            optStrPlugins: None
        }
    );
}

#[test]
fn captures_are_told_from_logs_by_their_magic() {
    assert!(IsCapture(&[0xA1, 0xB2, 0xC3, 0xD4]));
    assert!(IsCapture(&[0xD4, 0xC3, 0xB2, 0xA1]));
    assert!(IsCapture(&[0x0A, 0x0D, 0x0D, 0x0A]));
    assert!(!IsCapture(b"(1.0) can0 7E0#0210"));
    assert!(!IsCapture(&[0xA1, 0xB2, 0xC3]));
}

#[test]
fn the_demo_ecu_is_a_single_engine() {
    let ecu = MakeDemoEcu();
    assert!(!ecu.m_vecSupportedServices.is_empty());
    assert!(ecu.m_mapDids.contains_key(&0xF190));
}

#[test]
fn the_clock_counts_from_the_epoch() {
    assert_eq!(ReportedMs(None), 0);
    assert_eq!(ReportedMs(Some(1_700_000_000_000)), 1_700_000_000_000);
    assert_eq!(ReportedMs(Some(0x1_0000_0000_0000_0005)), 5);
    assert!(NowMs() > 1_600_000_000_000, "the clock is past the year 2020");
}
