use orange_downloader::drivers::{AdbDriver, BtDriver, Ed2kDriver, FtpDriver, SftpDriver};
use orange_downloader::model::ResourceType;

fn pairs(items: &[(&str, &str)]) -> Vec<(String, String)> {
    items.iter().map(|(k, v)| (k.to_string(), v.to_string())).collect()
}

#[test]
fn scp_arguments_follow_the_url() {
    let args = SftpDriver::build_scp_args(
        "sftp://carol@host/dir/f.bin",
        &Vec::new(),
        "/out/f.bin.partial",
    )
    .unwrap();
    assert_eq!(
        args,
        vec!["-B", "-P", "22", "-o", "BatchMode=yes", "carol@host:/dir/f.bin", "/out/f.bin.partial"]
    );
}

#[test]
fn scp_options_override_port_user_and_identity() {
    let options = pairs(&[("sftp_port", "2200"), ("sftp_user", "dave"), ("sftp_identity", "/k.pem")]);
    let args =
        SftpDriver::build_scp_args("sftp://host/f", &options, "/o/f.partial").unwrap();
    assert_eq!(
        args,
        vec!["-B", "-P", "2200", "-o", "BatchMode=yes", "-i", "/k.pem", "dave@host:/f", "/o/f.partial"]
    );
    // An anonymous pull has no user@ part.
    let args = SftpDriver::build_scp_args("sftp://host/f", &Vec::new(), "/o/f.partial").unwrap();
    assert_eq!(args[5], "host:/f");
    // A link without a host cannot be pulled.
    assert!(SftpDriver::build_scp_args("sftp:/f", &Vec::new(), "/o/f.partial").is_err());
    let _ = SftpDriver::new();
}

#[test]
fn adb_pull_uses_meta_device_path_and_options() {
    let meta = pairs(&[("device_path", "/sdcard/f.bin")]);
    let (program, args) =
        AdbDriver::build_pull_command("adb://d/sdcard/f.bin", &meta, &Vec::new(), "/o/f.partial")
            .unwrap();
    assert_eq!(program, "adb");
    assert_eq!(args, vec!["pull", "/sdcard/f.bin", "/o/f.partial"]);

    let options = pairs(&[("adb_bin", "/opt/adb"), ("adb_serial", "SER123")]);
    let (program, args) =
        AdbDriver::build_pull_command("adb://d/sdcard/f.bin", &meta, &options, "/o/f.partial")
            .unwrap();
    assert_eq!(program, "/opt/adb");
    assert_eq!(args, vec!["-s", "SER123", "pull", "/sdcard/f.bin", "/o/f.partial"]);

    // Without meta, the device path falls back to the link's path.
    let (_, args) =
        AdbDriver::build_pull_command("adb://d/data/x", &Vec::new(), &Vec::new(), "/o/x.partial")
            .unwrap();
    assert_eq!(args, vec!["pull", "/data/x", "/o/x.partial"]);
    assert!(
        AdbDriver::build_pull_command("adb://d", &Vec::new(), &Vec::new(), "/o/x.partial").is_err()
    );
    let _ = AdbDriver::new();
}

#[test]
fn ed2k_command_expands_placeholders() {
    let meta = pairs(&[("name", "Movie.mkv"), ("size", "734003200"), ("hash", "ABCD")]);
    let options = pairs(&[
        ("ed2k_cmd", "mldonkey"),
        ("ed2k_args", "--get\n{url}\n-o\n{out}\n \n--expect\n{name}:{size}:{hash}"),
    ]);
    let (program, args) = Ed2kDriver::build_client_command(
        "ed2k://|file|Movie.mkv|734003200|ABCD|/",
        &meta,
        &options,
        "/out/Movie.mkv",
    )
    .unwrap();
    assert_eq!(program, "mldonkey");
    assert_eq!(
        args,
        vec![
            "--get",
            "ed2k://|file|Movie.mkv|734003200|ABCD|/",
            "-o",
            "/out/Movie.mkv",
            "--expect",
            "Movie.mkv:734003200:ABCD",
        ]
    );
}

#[test]
fn ed2k_requires_a_client_command() {
    let err = Ed2kDriver::build_client_command("ed2k://x", &Vec::new(), &Vec::new(), "/o/f");
    assert!(err.is_err());
    let blank = pairs(&[("ed2k_cmd", "   ")]);
    assert!(Ed2kDriver::build_client_command("ed2k://x", &Vec::new(), &blank, "/o/f").is_err());
    let _ = Ed2kDriver::new();
    let _ = BtDriver::new();
}

#[test]
fn ftp_connections_read_meta_with_url_fallbacks() {
    let meta = pairs(&[("ftp_user", "alice"), ("ftp_pass", "SECRET-REDACTED"), ("ftp_port", "2121")]);
    let conn = FtpDriver::parse_conn("ftp://host/dir/f.bin", &meta).unwrap();
    assert_eq!(conn.host, "host");
    assert_eq!(conn.port, 2121);
    assert_eq!(conn.user, "alice");
    assert_eq!(conn.pass, "SECRET-REDACTED");
    assert_eq!(conn.path, "dir/f.bin");

    let conn = FtpDriver::parse_conn("ftp://erin:pw@host:2222/f", &Vec::new()).unwrap();
    assert_eq!((conn.user.as_str(), conn.pass.as_str(), conn.port), ("erin", "pw", 2222));

    let conn = FtpDriver::parse_conn("ftp://host/f", &Vec::new()).unwrap();
    assert_eq!((conn.user.as_str(), conn.pass.as_str(), conn.port), ("anonymous", "", 21));

    assert!(FtpDriver::parse_conn("::nope::", &Vec::new()).is_err());
}

#[test]
fn ftp_probe_and_backoff_match_the_transfer_rules() {
    assert_eq!(FtpDriver::probe_outcome(Some(99)), (Some(99), true));
    assert_eq!(FtpDriver::probe_outcome(None), (None, false));
    assert_eq!(FtpDriver::backoff_delay_ms(400, 0), 400);
    assert_eq!(FtpDriver::backoff_delay_ms(400, 1), 800);
    assert_eq!(FtpDriver::backoff_delay_ms(400, 20), 30_000);
    let d = FtpDriver::new();
    assert!(d.supports(ResourceType::Ftp));
    assert!(!d.supports(ResourceType::Http));
}
