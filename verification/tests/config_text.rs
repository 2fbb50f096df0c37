use server_keeper::java::{extract_java_version_from_path, get_optimized_java_flags};
use server_keeper::numfmt::u64_to_string;
use server_keeper::paths::get_server_name_from_path;
use server_keeper::server_config::{create_server_properties, ServerConfig};

#[test]
fn decimal_rendering() {
    assert_eq!(u64_to_string(0), "0");
    assert_eq!(u64_to_string(7), "7");
    assert_eq!(u64_to_string(25565), "25565");
    assert_eq!(u64_to_string(u64::MAX), "18446744073709551615");
}

#[test]
fn modern_version_flags() {
    let flags = get_optimized_java_flags(4096, "1.20.4", "vanilla");
    assert_eq!(flags[0], "-Xmx4G");
    assert_eq!(flags[1], "-Xms2G");
    assert_eq!(flags.len(), 20);
    assert!(flags.contains(&"-XX:MaxGCPauseMillis=200".to_string()));
    assert!(!flags.contains(&"-Dfml.readTimeout=180".to_string()));
}

#[test]
fn legacy_version_flags() {
    let flags = get_optimized_java_flags(2048, "1.12.2", "vanilla");
    assert_eq!(flags[0], "-Xmx2G");
    assert_eq!(flags[1], "-Xms1G");
    assert_eq!(flags.len(), 11);
    assert!(flags.contains(&"-XX:MaxGCPauseMillis=100".to_string()));
}

#[test]
fn modded_servers_get_the_handshake_timeout() {
    let forge = get_optimized_java_flags(4096, "1.20.1", "forge");
    assert_eq!(forge.last().unwrap(), "-Dfml.readTimeout=180");
    let neo = get_optimized_java_flags(4096, "1.20.1", "neoforge");
    assert_eq!(neo.last().unwrap(), "-Dfml.readTimeout=180");
    let paper = get_optimized_java_flags(4096, "1.20.1", "paper");
    assert!(!paper.contains(&"-Dfml.readTimeout=180".to_string()));
}

#[test]
fn java_version_from_directory_name() {
    assert_eq!(extract_java_version_from_path("jdk-21.0.1"), Some("21.0.1".to_string()));
    assert_eq!(
        extract_java_version_from_path("temurin-17.0.9-linux"),
        Some("17.0.9".to_string())
    );
    assert_eq!(extract_java_version_from_path("jre1.8.0_291"), Some("1.8.0.291".to_string()));
    assert_eq!(extract_java_version_from_path("openjdk"), None);
}

#[test]
fn server_name_from_path() {
    assert_eq!(get_server_name_from_path("servers/alpha"), "alpha");
    assert_eq!(get_server_name_from_path("C:\\data\\Serveurs\\beta"), "beta");
    assert_eq!(get_server_name_from_path("gamma"), "gamma");
    assert_eq!(get_server_name_from_path("a/b/"), "b");
    assert_eq!(get_server_name_from_path("///"), "///");
}

#[test]
fn properties_file_holds_the_configuration() {
    let config = ServerConfig {
        name: "alpha".to_string(),
        version: "1.20.4".to_string(),
        port: 25565,
        ram: 4096,
        motd: "A server".to_string(),
        max_players: 20,
        difficulty: "normal".to_string(),
        gamemode: "survival".to_string(),
        build: None,
    };
    let text = create_server_properties(&config);
    assert!(text.starts_with("#Minecraft server properties\n"));
    assert!(text.contains("server-port=25565\n"));
    assert!(text.contains("server-ip=0.0.0.0\n"));
    assert!(text.contains("max-players=20\n"));
    assert!(text.contains("motd=A server\n"));
    assert!(text.contains("difficulty=normal\n"));
    assert!(text.contains("gamemode=survival\n"));
    assert!(text.contains("online-mode=true\n"));
    assert!(text.ends_with("prevent-proxy-connections=false\n"));
}
