//! Java launch flags and installed-version discovery helpers.

use vstd::prelude::*;
use vstd::string::StrSliceExecFns;
use crate::numfmt::{dec_rep, u64_to_string};
use crate::text::{lines_of, match_at, starts_with_pat, str_copy, substring_copy};

verus! {

/// The maximum-heap flag for a memory budget in whole gigabytes.
pub open spec fn xmx_flag(ram_gb: nat) -> Seq<char> {
    "-Xmx"@ + dec_rep(ram_gb) + "G"@
}

/// The initial-heap flag for a memory budget in whole gigabytes.
pub open spec fn xms_flag(ram_gb: nat) -> Seq<char> {
    "-Xms"@ + dec_rep(ram_gb) + "G"@
}

/// Versions that run on a modern Java and take the tuned collector
/// flags.
pub open spec fn modern_version(v: Seq<char>) -> bool {
    match_at(v, "1.18"@, 0) || match_at(v, "1.19"@, 0) || match_at(v, "1.20"@, 0) || match_at(
        v,
        "1.21"@,
        0,
    )
}

/// The tuned collector flags for modern versions.
pub open spec fn modern_gc_flags() -> Seq<Seq<char>> {
    seq![
        "-XX:+UseG1GC"@,
        "-XX:+ParallelRefProcEnabled"@,
        "-XX:MaxGCPauseMillis=200"@,
        "-XX:+UnlockExperimentalVMOptions"@,
        "-XX:+DisableExplicitGC"@,
        "-XX:+AlwaysPreTouch"@,
        "-XX:G1NewSizePercent=30"@,
        "-XX:G1MaxNewSizePercent=40"@,
        "-XX:G1HeapRegionSize=8M"@,
        "-XX:G1ReservePercent=20"@,
        "-XX:G1HeapWastePercent=5"@,
        "-XX:G1MixedGCCountTarget=4"@,
        "-XX:InitiatingHeapOccupancyPercent=15"@,
        "-XX:G1MixedGCLiveThresholdPercent=90"@,
        "-XX:G1RSetUpdatingPauseTimePercent=5"@,
        "-XX:SurvivorRatio=32"@,
        "-XX:+PerfDisableSharedMem"@,
        "-XX:MaxTenuringThreshold=1"@,
    ]
}

/// The collector flags for older versions.
pub open spec fn legacy_gc_flags() -> Seq<Seq<char>> {
    seq![
        "-XX:+UseG1GC"@,
        "-XX:+UnlockExperimentalVMOptions"@,
        "-XX:MaxGCPauseMillis=100"@,
        "-XX:+DisableExplicitGC"@,
        "-XX:TargetSurvivorRatio=90"@,
        "-XX:G1NewSizePercent=50"@,
        "-XX:G1MaxNewSizePercent=80"@,
        "-XX:InitiatingHeapOccupancyPercent=10"@,
        "-XX:G1MixedGCLiveThresholdPercent=50"@,
    ]
}

/// Server types that load mods and take a longer handshake timeout.
pub open spec fn modded_server(t: Seq<char>) -> bool {
    t == "forge"@ || t == "neoforge"@
}

/// The whole flag list: heap sizing from the memory budget, collector
/// flags by version era, and the mod-loader timeout where it applies.
pub open spec fn optimized_flags(ram_mb: u32, version: Seq<char>, server_type: Seq<char>) -> Seq<
    Seq<char>,
> {
    let ram_gb = (ram_mb / 1024) as nat;
    seq![xmx_flag(ram_gb), xms_flag((ram_gb / 2) as nat)] + (if modern_version(version) {
        modern_gc_flags()
    } else {
        legacy_gc_flags()
    }) + (if modded_server(server_type) {
        seq!["-Dfml.readTimeout=180"@]
    } else {
        Seq::<Seq<char>>::empty()
    })
}

/// Append a literal flag.
fn push_flag(flags: &mut Vec<String>, flag: &str)
    ensures
        lines_of(final(flags)@) =~= lines_of(old(flags)@).push(flag@),
{
    flags.push(str_copy(flag));
}

/// Build the Java launch flags for a memory budget (in megabytes), a
/// game version and a server type.
pub fn get_optimized_java_flags(ram_mb: u32, version: &str, server_type: &str) -> (r: Vec<String>)
    ensures
        lines_of(r@) =~= optimized_flags(ram_mb, version@, server_type@),
{
    let ram_gb = ram_mb / 1024;
    let mut flags: Vec<String> = Vec::new();

    let mut xmx = str_copy("-Xmx");
    let gb = u64_to_string(ram_gb as u64);
    xmx.append(gb.as_str());
    xmx.append("G");
    proof {
        assert(xmx@ =~= xmx_flag((ram_mb / 1024) as nat));
    }
    flags.push(xmx);

    let mut xms = str_copy("-Xms");
    let half = u64_to_string((ram_gb / 2) as u64);
    xms.append(half.as_str());
    xms.append("G");
    proof {
        assert(xms@ =~= xms_flag(((ram_mb / 1024) / 2) as nat));
    }
    flags.push(xms);

    let modern = starts_with_pat(version, "1.18") || starts_with_pat(version, "1.19")
        || starts_with_pat(version, "1.20") || starts_with_pat(version, "1.21");
    if modern {
        push_flag(&mut flags, "-XX:+UseG1GC");
        push_flag(&mut flags, "-XX:+ParallelRefProcEnabled");
        push_flag(&mut flags, "-XX:MaxGCPauseMillis=200");
        push_flag(&mut flags, "-XX:+UnlockExperimentalVMOptions");
        push_flag(&mut flags, "-XX:+DisableExplicitGC");
        push_flag(&mut flags, "-XX:+AlwaysPreTouch");
        push_flag(&mut flags, "-XX:G1NewSizePercent=30");
        push_flag(&mut flags, "-XX:G1MaxNewSizePercent=40");
        push_flag(&mut flags, "-XX:G1HeapRegionSize=8M");
        push_flag(&mut flags, "-XX:G1ReservePercent=20");
        push_flag(&mut flags, "-XX:G1HeapWastePercent=5");
        push_flag(&mut flags, "-XX:G1MixedGCCountTarget=4");
        push_flag(&mut flags, "-XX:InitiatingHeapOccupancyPercent=15");
        push_flag(&mut flags, "-XX:G1MixedGCLiveThresholdPercent=90");
        push_flag(&mut flags, "-XX:G1RSetUpdatingPauseTimePercent=5");
        push_flag(&mut flags, "-XX:SurvivorRatio=32");
        push_flag(&mut flags, "-XX:+PerfDisableSharedMem");
        push_flag(&mut flags, "-XX:MaxTenuringThreshold=1");
    } else {
        push_flag(&mut flags, "-XX:+UseG1GC");
        push_flag(&mut flags, "-XX:+UnlockExperimentalVMOptions");
        push_flag(&mut flags, "-XX:MaxGCPauseMillis=100");
        push_flag(&mut flags, "-XX:+DisableExplicitGC");
        push_flag(&mut flags, "-XX:TargetSurvivorRatio=90");
        push_flag(&mut flags, "-XX:G1NewSizePercent=50");
        push_flag(&mut flags, "-XX:G1MaxNewSizePercent=80");
        push_flag(&mut flags, "-XX:InitiatingHeapOccupancyPercent=10");
        push_flag(&mut flags, "-XX:G1MixedGCLiveThresholdPercent=50");
    }
    let modded = crate::text::str_eq(server_type, "forge") || crate::text::str_eq(
        server_type,
        "neoforge",
    );
    if modded {
        push_flag(&mut flags, "-Dfml.readTimeout=180");
    }
    proof {
        assert(lines_of(flags@) =~= optimized_flags(ram_mb, version@, server_type@));
    }
    flags
}

/// The index of the first occurrence of `c` in `t`, or a negative value
/// when `c` does not occur.
pub open spec fn find_char(t: Seq<char>, c: char) -> int
    decreases t.len(),
{
    if t.len() == 0 {
        -1
    } else if t[0] == c {
        0
    } else {
        let rest = find_char(t.drop_first(), c);
        if rest < 0 {
            -1
        } else {
            rest + 1
        }
    }
}

/// What `find_char` finds: the leftmost occurrence, or nothing.
pub proof fn lemma_find_char(t: Seq<char>, c: char)
    ensures
        find_char(t, c) < 0 ==> forall|i: int| 0 <= i < t.len() ==> t[i] != c,
        find_char(t, c) >= 0 ==> {
            &&& find_char(t, c) < t.len()
            &&& t[find_char(t, c)] == c
            &&& forall|i: int| 0 <= i < find_char(t, c) ==> t[i] != c
        },
    decreases t.len(),
{
    if t.len() > 0 && t[0] != c {
        lemma_find_char(t.drop_first(), c);
        let rest = find_char(t.drop_first(), c);
        if rest < 0 {
            assert(forall|i: int| 0 < i < t.len() ==> t.drop_first()[i - 1] == t[i]);
        } else {
            assert(t.drop_first()[rest] == t[rest + 1]);
            assert(forall|i: int| 0 < i < rest + 1 ==> t[i] == t.drop_first()[i - 1]);
        }
    }
}

/// What the version extraction yields for a directory name: the text
/// between the first dash and the next one (or the end); failing a dash,
/// the text after a `jre` prefix with underscores read as dots; else
/// nothing.
pub open spec fn version_of_dir_name(t: Seq<char>) -> Option<Seq<char>> {
    let d = find_char(t, '-');
    if d >= 0 {
        let part = t.subrange(d + 1, t.len() as int);
        let d2 = find_char(part, '-');
        if d2 >= 0 {
            Some(part.subrange(0, d2))
        } else {
            Some(part)
        }
    } else if match_at(t, "jre"@, 0) {
        Some(
            t.subrange(3, t.len() as int).map_values(
                |ch: char|
                    if ch == '_' {
                        '.'
                    } else {
                        ch
                    },
            ),
        )
    } else {
        None
    }
}

/// Read a Java version out of an installation directory's name, as in
/// `jdk-21.0.1` or `jre1.8.0_291`.
pub fn extract_java_version_from_path(dir_name: &str) -> (r: Option<String>)
    ensures
        match r {
            Some(v) => version_of_dir_name(dir_name@) == Some(v@),
            None => version_of_dir_name(dir_name@) is None,
        },
{
    let n = dir_name.unicode_len();
    proof {
        reveal_strlit("-");
        lemma_find_char(dir_name@, '-');
    }
    match crate::text::find_pat_from(dir_name, "-", 0) {
        Some(d) => {
            proof {
                assert(match_at(dir_name@, "-"@, d as int));
                assert(dir_name@.subrange(d as int, d + 1)[0] == dir_name@[d as int]);
                assert(dir_name@[d as int] == '-');
                assert forall|k: int| 0 <= k < d implies dir_name@[k] != '-' by {
                    assert(!match_at(dir_name@, "-"@, k));
                    if dir_name@[k] == '-' {
                        assert(dir_name@.subrange(k, k + 1) =~= "-"@);
                    }
                }
                assert(find_char(dir_name@, '-') == d as int);
            }
            let ghost part = dir_name@.subrange(d + 1, n as int);
            proof {
                lemma_find_char(part, '-');
            }
            match crate::text::find_pat_from(dir_name, "-", d + 1) {
                Some(d2) => {
                    proof {
                        assert(dir_name@.subrange(d2 as int, d2 + 1)[0] == dir_name@[d2 as int]);
                        assert(dir_name@[d2 as int] == '-');
                        assert forall|k: int| 0 <= k < d2 - (d + 1) implies part[k] != '-' by {
                            assert(part[k] == dir_name@[d + 1 + k]);
                            assert(!match_at(dir_name@, "-"@, d + 1 + k));
                            if dir_name@[d + 1 + k] == '-' {
                                assert(dir_name@.subrange(d + 1 + k, d + 1 + k + 1) =~= "-"@);
                            }
                        }
                        assert(part[d2 - (d + 1)] == '-');
                        assert(find_char(part, '-') == d2 - (d + 1));
                    }
                    let v = substring_copy(dir_name, d + 1, d2);
                    proof {
                        assert(v@ =~= part.subrange(0, d2 - (d + 1)));
                    }
                    Some(v)
                },
                None => {
                    proof {
                        assert forall|k: int| 0 <= k < part.len() implies part[k] != '-' by {
                            assert(part[k] == dir_name@[d + 1 + k]);
                            assert(!match_at(dir_name@, "-"@, d + 1 + k));
                            if dir_name@[d + 1 + k] == '-' {
                                assert(dir_name@.subrange(d + 1 + k, d + 1 + k + 1) =~= "-"@);
                            }
                        }
                        assert(find_char(part, '-') < 0);
                    }
                    let v = substring_copy(dir_name, d + 1, n);
                    Some(v)
                },
            }
        },
        None => {
            proof {
                assert forall|k: int| 0 <= k < dir_name@.len() implies dir_name@[k] != '-' by {
                    assert(!match_at(dir_name@, "-"@, k));
                    if dir_name@[k] == '-' {
                        assert(dir_name@.subrange(k, k + 1) =~= "-"@);
                    }
                }
                assert(find_char(dir_name@, '-') < 0);
            }
            if starts_with_pat(dir_name, "jre") {
                proof {
                    reveal_strlit("jre");
                }
                let mut v = String::new();
                let mut i: usize = 3;
                while i < n
                    invariant
                        3 <= i <= n,
                        n == dir_name@.len(),
                        n >= 3,
                        v@ =~= dir_name@.subrange(3, i as int).map_values(
                            |ch: char|
                                if ch == '_' {
                                    '.'
                                } else {
                                    ch
                                },
                        ),
                    decreases n - i,
                {
                    let c = dir_name.get_char(i);
                    if c == '_' {
                        v.append(".");
                    } else {
                        let piece = dir_name.substring_char(i, i + 1);
                        v.append(piece);
                    }
                    proof {
                        reveal_strlit(".");
                        assert(v@ =~= dir_name@.subrange(3, i + 1).map_values(
                            |ch: char|
                                if ch == '_' {
                                    '.'
                                } else {
                                    ch
                                },
                        ));
                    }
                    i = i + 1;
                }
                Some(v)
            } else {
                None
            }
        },
    }
}

} // verus!
