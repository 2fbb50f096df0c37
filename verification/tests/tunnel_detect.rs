use server_keeper::detector::{detect_tunnel_url, is_recent_candidate, ConfigText};
use server_keeper::json_tree::{search_json_tree, search_tunnel_url_in_json, JsonTree};
use server_keeper::playit::PlayitSupervisor;
use server_keeper::tunnel::{
    detect_in_text, search_tunnel_url_in_logs, search_tunnel_url_in_toml,
};

fn some(s: &str) -> Option<String> {
    Some(s.to_string())
}

#[test]
fn bare_playit_address_is_found() {
    assert_eq!(
        detect_in_text("log line with my-server.share.playit.gg inside"),
        some("my-server.share.playit.gg")
    );
}

#[test]
fn bare_joinmc_address_is_found() {
    assert_eq!(detect_in_text("join at? mc.eu.joinmc.link now"), some("mc.eu.joinmc.link"));
}

#[test]
fn joinmc_needs_a_middle_label() {
    // the joinmc family asks for a dot and a label between the leading
    // word run and the suffix
    assert_eq!(detect_in_text("visit x.joinmc.link"), None);
}

#[test]
fn exact_address_is_returned_whole() {
    assert_eq!(detect_in_text("abc.share.playit.gg"), some("abc.share.playit.gg"));
    assert_eq!(detect_in_text("a.b.joinmc.link"), some("a.b.joinmc.link"));
}

#[test]
fn contextual_beats_bare() {
    // the text holds a bare address first, but the contextual form for a
    // different address wins
    let text = "ignore first.share.playit.gg, the tunnel: second.share.playit.gg";
    assert_eq!(detect_in_text(text), some("second.share.playit.gg"));
}

#[test]
fn contextual_separators() {
    assert_eq!(
        detect_in_text("address is abc.share.playit.gg"),
        some("abc.share.playit.gg")
    );
    assert_eq!(detect_in_text("url:x-1.share.playit.gg"), some("x-1.share.playit.gg"));
    assert_eq!(
        detect_in_text("server at  my.game.joinmc.link"),
        some("my.game.joinmc.link")
    );
}

#[test]
fn phrase_form_is_found() {
    assert_eq!(
        detect_in_text("Tunnel created for you => abc.share.playit.gg"),
        some("abc.share.playit.gg")
    );
    assert_eq!(
        detect_in_text("service is now available, reach it on play.srv.joinmc.link"),
        some("play.srv.joinmc.link")
    );
}

#[test]
fn playit_family_beats_joinmc_family() {
    let text = "both a.b.joinmc.link and host.share.playit.gg appear";
    assert_eq!(detect_in_text(text), some("host.share.playit.gg"));
}

#[test]
fn no_address_yields_nothing() {
    assert_eq!(detect_in_text("just an ordinary log line"), None);
    assert_eq!(detect_in_text("almost share.playit.gg but no label"), None);
}

#[test]
fn logs_scan_takes_first_matching_line() {
    let logs = vec![
        "booting".to_string(),
        "tunnel: one.share.playit.gg".to_string(),
        "two.share.playit.gg".to_string(),
    ];
    assert_eq!(search_tunnel_url_in_logs(&logs), some("one.share.playit.gg"));
    assert_eq!(search_tunnel_url_in_logs(&vec!["nothing".to_string()]), None);
}

#[test]
fn toml_is_scanned_as_raw_text() {
    let toml = "agent = \"x\"\nhost = \"srv.share.playit.gg\"\n";
    assert_eq!(search_tunnel_url_in_toml(toml), some("srv.share.playit.gg"));
    assert_eq!(search_tunnel_url_in_toml("port = 25565"), None);
}

#[test]
fn json_is_searched_structurally_when_raw_text_misses() {
    // the dot is escaped in the raw text, so only the parsed document
    // holds the address
    let json = "{\"tunnel\":\"abc\\u002eshare.playit.gg\"}";
    assert_eq!(search_tunnel_url_in_json(json), some("abc.share.playit.gg"));
}

#[test]
fn malformed_json_degrades_to_no_match() {
    assert_eq!(search_tunnel_url_in_json("{not json at all"), None);
}

#[test]
fn tree_search_goes_depth_first() {
    let tree = JsonTree::Obj(vec![
        ("a".to_string(), JsonTree::Arr(vec![JsonTree::Str("plain".to_string())])),
        (
            "b".to_string(),
            JsonTree::Arr(vec![
                JsonTree::Num,
                JsonTree::Str("first.share.playit.gg".to_string()),
            ]),
        ),
        ("c".to_string(), JsonTree::Str("second.share.playit.gg".to_string())),
    ]);
    assert_eq!(search_json_tree(&tree), some("first.share.playit.gg"));
    assert_eq!(search_json_tree(&JsonTree::Null), None);
}

#[test]
fn detector_prefers_cache_then_logs_then_configs_then_recents() {
    let logs = vec!["tunnel: from-logs.share.playit.gg".to_string()];
    let configs = vec![ConfigText {
        content: "host = \"from-config.share.playit.gg\"".to_string(),
        json: false,
    }];
    let recents = vec!["from-recent.share.playit.gg".to_string()];

    let cached = Some("cached.share.playit.gg".to_string());
    assert_eq!(
        detect_tunnel_url(&cached, &logs, &configs, &recents),
        some("cached.share.playit.gg")
    );
    let empty_logs: Vec<String> = Vec::new();
    assert_eq!(
        detect_tunnel_url(&None, &logs, &configs, &recents),
        some("from-logs.share.playit.gg")
    );
    assert_eq!(
        detect_tunnel_url(&None, &empty_logs, &configs, &recents),
        some("from-config.share.playit.gg")
    );
    let empty_configs: Vec<ConfigText> = Vec::new();
    assert_eq!(
        detect_tunnel_url(&None, &empty_logs, &empty_configs, &recents),
        some("from-recent.share.playit.gg")
    );
    let empty_recents: Vec<String> = Vec::new();
    assert_eq!(detect_tunnel_url(&None, &empty_logs, &empty_configs, &empty_recents), None);
}

#[test]
fn config_tier_returns_structural_json_capture() {
    // the address hides behind an escape, so only the parsed document
    // yields it; the detector must hand that capture through
    let empty_logs: Vec<String> = Vec::new();
    let configs = vec![ConfigText {
        content: "{\"host\":\"deep\\u002eshare.playit.gg\"}".to_string(),
        json: true,
    }];
    let recents = vec!["shadowed.share.playit.gg".to_string()];
    assert_eq!(
        detect_tunnel_url(&None, &empty_logs, &configs, &recents),
        some("deep.share.playit.gg")
    );
}

#[test]
fn first_matching_config_wins() {
    let empty_logs: Vec<String> = Vec::new();
    let configs = vec![
        ConfigText { content: "port = 25565".to_string(), json: false },
        ConfigText { content: "host = \"one.share.playit.gg\"".to_string(), json: false },
        ConfigText { content: "host = \"two.share.playit.gg\"".to_string(), json: false },
    ];
    let recents: Vec<String> = Vec::new();
    assert_eq!(
        detect_tunnel_url(&None, &empty_logs, &configs, &recents),
        some("one.share.playit.gg")
    );
}

#[test]
fn first_matching_recent_wins() {
    let empty_logs: Vec<String> = Vec::new();
    let configs: Vec<ConfigText> = Vec::new();
    let recents = vec![
        "nothing here".to_string(),
        "early.share.playit.gg".to_string(),
        "late.share.playit.gg".to_string(),
    ];
    assert_eq!(
        detect_tunnel_url(&None, &empty_logs, &configs, &recents),
        some("early.share.playit.gg")
    );
}

#[test]
fn recent_candidate_window_and_size() {
    assert!(is_recent_candidate(1000, 950, 10, 120, 50_000));
    assert!(!is_recent_candidate(1000, 800, 10, 120, 50_000));
    assert!(!is_recent_candidate(1000, 950, 60_000, 120, 50_000));
    // very early clock values are always within the window
    assert!(is_recent_candidate(60, 0, 10, 120, 50_000));
}

#[test]
fn playit_caches_first_address_from_output() {
    let mut p = PlayitSupervisor::new();
    assert!(p.begin_start(false).is_ok());
    p.complete_start(42);
    assert_eq!(p.tunnel_url(), None);
    p.on_line("agent starting");
    p.on_line("tunnel: first.share.playit.gg");
    p.on_line("tunnel: second.share.playit.gg");
    // the first match sticks
    assert_eq!(p.tunnel_url(), some("first.share.playit.gg"));
    assert_eq!(
        p.snapshot_logs(),
        vec![
            "agent starting".to_string(),
            "tunnel: first.share.playit.gg".to_string(),
            "tunnel: second.share.playit.gg".to_string(),
        ]
    );
}

#[test]
fn playit_start_refused_while_running() {
    let mut p = PlayitSupervisor::new();
    assert!(p.begin_start(true).is_err());
    assert!(p.begin_start(false).is_ok());
}

#[test]
fn playit_stop_clears_address_but_keeps_logs() {
    let mut p = PlayitSupervisor::new();
    p.complete_start(42);
    p.on_line("tunnel: gone.share.playit.gg");
    assert!(p.tunnel_url().is_some());
    p.stop();
    assert_eq!(p.tunnel_url(), None);
    assert_eq!(p.snapshot_logs().len(), 1);
}

#[test]
fn playit_manual_override() {
    let mut p = PlayitSupervisor::new();
    p.set_tunnel_url("manual.share.playit.gg".to_string());
    assert_eq!(p.tunnel_url(), some("manual.share.playit.gg"));
}

#[test]
fn playit_detect_uses_scrollback_and_caches() {
    let mut p = PlayitSupervisor::new();
    p.on_line("tunnel: cached-later.share.playit.gg is up");
    // the first line already cached it; clear and detect from scrollback
    p.stop();
    assert_eq!(p.tunnel_url(), None);
    let configs: Vec<ConfigText> = Vec::new();
    let recents: Vec<String> = Vec::new();
    assert_eq!(p.detect(&configs, &recents), some("cached-later.share.playit.gg"));
    assert_eq!(p.tunnel_url(), some("cached-later.share.playit.gg"));
}
