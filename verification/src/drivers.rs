//! Whole-file protocol drivers: the BitTorrent, SFTP, ADB, ED2K and
//! FTP transfers are carried by outside clients and connections, but
//! everything these drivers decide — connection parameters, command
//! lines, placeholder expansion — is computed and proved here; the
//! processes run outside the library.

use vstd::prelude::*;
use crate::model::{lookup_pair, pairs_get, ResourceType};
use crate::text::{
    all_digits, all_spaces, decimal_string, decimal_value, format_u64, is_blank, parse_u16,
    replace_all, replace_spec, split_char, split_spec, strip_char_all, strip_leading,
};
use crate::urlparse::{parse_url, url_parse_spec, UrlPartsView};

verus! {

/// A driver could not assemble its command or connection from the
/// resource.
#[derive(Debug)]
pub struct DriverCommandError {
    pub message: String,
}

/// BitTorrent transfers: the whole magnet download is delegated to a
/// torrent client outside the library.
pub struct BtDriver;

impl BtDriver {
    pub fn new() -> (r: Self) {
        BtDriver
    }
}

/// The port an SFTP pull uses: the `sftp_port` option when it reads as
/// a port number, else the URL's explicit port, else the protocol
/// default.
pub open spec fn sftp_port_spec(options: Seq<(Seq<char>, Seq<char>)>, p: UrlPartsView) -> int {
    let fallback: int = match p.port {
        Some(pt) => pt as int,
        None => 22,
    };
    match pairs_get(options, "sftp_port"@) {
        Some(v) => if v.len() > 0 && all_digits(v) && decimal_value(v) <= u16::MAX {
            decimal_value(v)
        } else {
            fallback
        },
        None => fallback,
    }
}

/// The user an SFTP pull logs in as: the `sftp_user` option, else the
/// URL's user.
pub open spec fn sftp_user_spec(options: Seq<(Seq<char>, Seq<char>)>, p: UrlPartsView) -> Seq<
    char,
> {
    match pairs_get(options, "sftp_user"@) {
        Some(u) => u,
        None => p.username,
    }
}

/// The remote argument of the copy: `host:path`, with `user@` in front
/// when a user is known.
pub open spec fn sftp_remote_spec(options: Seq<(Seq<char>, Seq<char>)>, p: UrlPartsView) -> Seq<
    char,
> {
    let host = match p.host {
        Some(h) => h,
        None => Seq::empty(),
    };
    let user = sftp_user_spec(options, p);
    if user.len() == 0 {
        host + ":"@ + p.path
    } else {
        user + "@"@ + host + ":"@ + p.path
    }
}

/// The whole argument list of the copy, in order: batch mode, the
/// port, no password prompts, the identity file when one is given, the
/// remote, and the staging path.
pub open spec fn scp_args_spec(
    options: Seq<(Seq<char>, Seq<char>)>,
    p: UrlPartsView,
    tmp_path: Seq<char>,
) -> Seq<Seq<char>> {
    let base = seq!["-B"@, "-P"@, decimal_string(sftp_port_spec(options, p)), "-o"@,
        "BatchMode=yes"@];
    let with_id = match pairs_get(options, "sftp_identity"@) {
        Some(id) => base + seq!["-i"@, id],
        None => base,
    };
    with_id + seq![sftp_remote_spec(options, p), tmp_path]
}

/// SFTP transfers: the copy runs through the system's `scp`; the
/// arguments it runs with are built and proved here.
pub struct SftpDriver;

impl SftpDriver {
    pub fn new() -> (r: Self) {
        SftpDriver
    }

    /// The `scp` argument list for pulling `uri` to `tmp_path`. Fails
    /// exactly when the link does not parse, names no host, or names no
    /// path.
    pub fn build_scp_args(uri: &str, options: &Vec<(String, String)>, tmp_path: &str) -> (r:
        Result<Vec<String>, DriverCommandError>)
        ensures
            r matches Ok(args) ==> {
                &&& url_parse_spec(uri@) matches Some(p)
                &&& p.host is Some
                &&& p.path.len() > 0
                &&& args.deep_view() == scp_args_spec(options.deep_view(), p, tmp_path@)
            },
            r is Err <==> (match url_parse_spec(uri@) {
                Some(p) => p.host is None || p.path.len() == 0,
                None => true,
            }),
    {
        let p = match parse_url(uri) {
            Some(p) => p,
            None => {
                return Err(DriverCommandError { message: String::from_str("not a valid url") });
            },
        };
        let host = match &p.host {
            Some(h) => h.clone(),
            None => {
                return Err(
                    DriverCommandError { message: String::from_str("sftp url missing host") },
                );
            },
        };
        if p.path.as_str().unicode_len() == 0 {
            return Err(DriverCommandError { message: String::from_str("sftp url missing path") });
        }
        let port: u16 = match lookup_pair(options, "sftp_port") {
            Some(v) => match parse_u16(v.as_str()) {
                Some(pt) => pt,
                None => match p.port {
                    Some(pt) => pt,
                    None => 22,
                },
            },
            None => match p.port {
                Some(pt) => pt,
                None => 22,
            },
        };
        let user: String = match lookup_pair(options, "sftp_user") {
            Some(u) => u.clone(),
            None => p.username.clone(),
        };
        let remote: String = if user.as_str().unicode_len() == 0 {
            let mut s = host;
            s.append(":");
            s.append(p.path.as_str());
            s
        } else {
            let mut s = user;
            s.append("@");
            s.append(host.as_str());
            s.append(":");
            s.append(p.path.as_str());
            s
        };
        let mut args: Vec<String> = Vec::new();
        args.push(String::from_str("-B"));
        args.push(String::from_str("-P"));
        args.push(format_u64(port as u64));
        args.push(String::from_str("-o"));
        args.push(String::from_str("BatchMode=yes"));
        if let Some(id) = lookup_pair(options, "sftp_identity") {
            args.push(String::from_str("-i"));
            args.push(id.clone());
        }
        args.push(remote);
        args.push(String::from_str(tmp_path));
        proof {
            assert(args.deep_view() =~= scp_args_spec(options.deep_view(), p@, tmp_path@));
        }
        Ok(args)
    }
}

/// The device path an ADB pull reads: the resource's `device_path`
/// meta, else the path of the link, else nothing usable.
pub open spec fn adb_device_path_spec(
    uri: Seq<char>,
    meta: Seq<(Seq<char>, Seq<char>)>,
) -> Seq<char> {
    match pairs_get(meta, "device_path"@) {
        Some(dp) => dp,
        None => match url_parse_spec(uri) {
            Some(p) => p.path,
            None => Seq::empty(),
        },
    }
}

/// The pull arguments: the device serial when one is given, then
/// `pull`, the device path, and the staging path.
pub open spec fn adb_args_spec(
    uri: Seq<char>,
    meta: Seq<(Seq<char>, Seq<char>)>,
    options: Seq<(Seq<char>, Seq<char>)>,
    tmp_path: Seq<char>,
) -> Seq<Seq<char>> {
    let base: Seq<Seq<char>> = match pairs_get(options, "adb_serial"@) {
        Some(serial) => seq!["-s"@, serial],
        None => Seq::empty(),
    };
    base + seq!["pull"@, adb_device_path_spec(uri, meta), tmp_path]
}

/// ADB transfers: the pull runs through the local `adb` binary; the
/// command it runs with is built and proved here.
pub struct AdbDriver;

impl AdbDriver {
    pub fn new() -> (r: Self) {
        AdbDriver
    }

    /// The program and arguments of the pull. Fails exactly when no
    /// usable device path can be found.
    pub fn build_pull_command(
        uri: &str,
        meta: &Vec<(String, String)>,
        options: &Vec<(String, String)>,
        tmp_path: &str,
    ) -> (r: Result<(String, Vec<String>), DriverCommandError>)
        ensures
            r matches Ok(cmd) ==> {
                &&& adb_device_path_spec(uri@, meta.deep_view()).len() > 0
                &&& adb_device_path_spec(uri@, meta.deep_view()) != "/"@
                &&& cmd.0@ == (match pairs_get(options.deep_view(), "adb_bin"@) {
                    Some(b) => b,
                    None => "adb"@,
                })
                &&& cmd.1.deep_view() == adb_args_spec(
                    uri@,
                    meta.deep_view(),
                    options.deep_view(),
                    tmp_path@,
                )
            },
            r is Err <==> (adb_device_path_spec(uri@, meta.deep_view()).len() == 0
                || adb_device_path_spec(uri@, meta.deep_view()) == "/"@),
    {
        let device_path: String = match lookup_pair(meta, "device_path") {
            Some(dp) => dp.clone(),
            None => match parse_url(uri) {
                Some(p) => p.path,
                None => String::new(),
            },
        };
        if device_path.as_str().unicode_len() == 0 || crate::model::str_eq(
            device_path.as_str(),
            "/",
        ) {
            return Err(DriverCommandError { message: String::from_str("adb missing device path") });
        }
        let program: String = match lookup_pair(options, "adb_bin") {
            Some(b) => b.clone(),
            None => String::from_str("adb"),
        };
        let mut args: Vec<String> = Vec::new();
        if let Some(serial) = lookup_pair(options, "adb_serial") {
            args.push(String::from_str("-s"));
            args.push(serial.clone());
        }
        args.push(String::from_str("pull"));
        args.push(device_path);
        args.push(String::from_str(tmp_path));
        proof {
            assert(args.deep_view() =~= adb_args_spec(
                uri@,
                meta.deep_view(),
                options.deep_view(),
                tmp_path@,
            ));
        }
        Ok((program, args))
    }
}

/// A template with the resource's values filled in: `{url}`, `{out}`,
/// `{name}`, `{size}` and `{hash}` are replaced in that order.
pub open spec fn ed2k_expand_spec(
    s: Seq<char>,
    uri: Seq<char>,
    out: Seq<char>,
    name: Seq<char>,
    size: Seq<char>,
    hash: Seq<char>,
) -> Seq<char> {
    replace_spec(
        replace_spec(
            replace_spec(replace_spec(replace_spec(s, "{url}"@, uri), "{out}"@, out), "{name}"@, name),
            "{size}"@,
            size,
        ),
        "{hash}"@,
        hash,
    )
}

/// `ed2k_expand_spec` with the resource's values fixed, as a function
/// value for `map_values`.
pub open spec fn ed2k_expand_fn(
    uri: Seq<char>,
    out: Seq<char>,
    name: Seq<char>,
    size: Seq<char>,
    hash: Seq<char>,
) -> spec_fn(Seq<char>) -> Seq<char> {
    |t: Seq<char>| ed2k_expand_spec(t, uri, out, name, size, hash)
}

/// The non-blank lines of an argument template.
pub open spec fn nonblank_lines(parts: Seq<Seq<char>>) -> Seq<Seq<char>>
    decreases parts.len(),
{
    if parts.len() == 0 {
        Seq::empty()
    } else {
        let prev = nonblank_lines(parts.drop_last());
        if all_spaces(parts.last()) {
            prev
        } else {
            prev.push(parts.last())
        }
    }
}

/// A meta value, or empty when absent.
pub open spec fn meta_or_empty(meta: Seq<(Seq<char>, Seq<char>)>, key: Seq<char>) -> Seq<char> {
    match pairs_get(meta, key) {
        Some(v) => v,
        None => Seq::empty(),
    }
}

/// ED2K transfers: the download runs through an external client
/// command; the command line, with its placeholders expanded, is
/// built and proved here.
pub struct Ed2kDriver;

impl Ed2kDriver {
    pub fn new() -> (r: Self) {
        Ed2kDriver
    }

    /// The program and arguments of the external client: the `ed2k_cmd`
    /// option and the non-blank lines of `ed2k_args`, each with the
    /// resource's values filled in. Fails exactly when no non-blank
    /// `ed2k_cmd` option is set.
    pub fn build_client_command(
        uri: &str,
        meta: &Vec<(String, String)>,
        options: &Vec<(String, String)>,
        target_path: &str,
    ) -> (r: Result<(String, Vec<String>), DriverCommandError>)
        ensures
            r matches Ok(cmd) ==> {
                let m = meta.deep_view();
                let name = meta_or_empty(m, "name"@);
                let size = meta_or_empty(m, "size"@);
                let hash = meta_or_empty(m, "hash"@);
                &&& pairs_get(options.deep_view(), "ed2k_cmd"@) matches Some(c) && !all_spaces(c)
                    && cmd.0@ == ed2k_expand_spec(c, uri@, target_path@, name, size, hash)
                &&& cmd.1.deep_view() == (match pairs_get(options.deep_view(), "ed2k_args"@) {
                    Some(a) => nonblank_lines(split_spec(a, '\n')).map_values(
                        ed2k_expand_fn(uri@, target_path@, name, size, hash),
                    ),
                    None => Seq::<Seq<char>>::empty(),
                })
            },
            r is Err <==> (match pairs_get(options.deep_view(), "ed2k_cmd"@) {
                Some(c) => all_spaces(c),
                None => true,
            }),
    {
        let cmd_template: String = match lookup_pair(options, "ed2k_cmd") {
            Some(c) => {
                if is_blank(c.as_str()) {
                    return Err(
                        DriverCommandError { message: String::from_str("ED2K requires --ed2k-cmd") },
                    );
                }
                c.clone()
            },
            None => {
                return Err(
                    DriverCommandError { message: String::from_str("ED2K requires --ed2k-cmd") },
                );
            },
        };
        let name: String = match lookup_pair(meta, "name") {
            Some(v) => v.clone(),
            None => String::new(),
        };
        let size: String = match lookup_pair(meta, "size") {
            Some(v) => v.clone(),
            None => String::new(),
        };
        let hash: String = match lookup_pair(meta, "hash") {
            Some(v) => v.clone(),
            None => String::new(),
        };

        let program = Self::expand(cmd_template.as_str(), uri, target_path, &name, &size, &hash);
        let mut args: Vec<String> = Vec::new();
        match lookup_pair(options, "ed2k_args") {
            Some(a) => {
                let ghost m = meta.deep_view();
                let ghost expand_fn = ed2k_expand_fn(
                    uri@,
                    target_path@,
                    meta_or_empty(m, "name"@),
                    meta_or_empty(m, "size"@),
                    meta_or_empty(m, "hash"@),
                );
                let lines = split_char(a.as_str(), '\n');
                let n = lines.len();
                let mut i: usize = 0;
                proof {
                    assert(lines.deep_view().take(0) =~= Seq::<Seq<char>>::empty());
                    assert(args.deep_view() =~= nonblank_lines(lines.deep_view().take(0)).map_values(
                        expand_fn,
                    ));
                }
                while i < n
                    invariant
                        n == lines@.len(),
                        i <= n,
                        name@ == meta_or_empty(m, "name"@),
                        size@ == meta_or_empty(m, "size"@),
                        hash@ == meta_or_empty(m, "hash"@),
                        expand_fn == ed2k_expand_fn(
                            uri@,
                            target_path@,
                            meta_or_empty(m, "name"@),
                            meta_or_empty(m, "size"@),
                            meta_or_empty(m, "hash"@),
                        ),
                        m == meta.deep_view(),
                        args.deep_view() == nonblank_lines(
                            lines.deep_view().take(i as int),
                        ).map_values(expand_fn),
                    decreases n - i,
                {
                    proof {
                        assert(lines.deep_view().take(i + 1).drop_last() =~= lines.deep_view().take(
                            i as int,
                        ));
                        assert(lines.deep_view().take(i + 1).last() == lines.deep_view()[i as int]);
                    }
                    if !is_blank(lines[i].as_str()) {
                        args.push(
                            Self::expand(lines[i].as_str(), uri, target_path, &name, &size, &hash),
                        );
                    }
                    i = i + 1;
                    proof {
                        let lv = lines.deep_view();
                        assert(lv[i - 1] == lines@[i - 1]@);
                        if !all_spaces(lv[i - 1]) {
                            let prev_nb = nonblank_lines(lv.take(i - 1));
                            assert(nonblank_lines(lv.take(i as int)) == prev_nb.push(lv[i - 1]));
                            assert(expand_fn(lv[i - 1]) == ed2k_expand_spec(
                                lv[i - 1],
                                uri@,
                                target_path@,
                                meta_or_empty(m, "name"@),
                                meta_or_empty(m, "size"@),
                                meta_or_empty(m, "hash"@),
                            ));
                            assert(prev_nb.push(lv[i - 1]).map_values(expand_fn)
                                =~= prev_nb.map_values(expand_fn).push(expand_fn(lv[i - 1])));
                            assert(args.deep_view() =~= prev_nb.map_values(expand_fn).push(
                                expand_fn(lv[i - 1]),
                            ));
                        }
                        assert(args.deep_view() =~= nonblank_lines(lv.take(i as int)).map_values(
                            expand_fn,
                        ));
                    }
                }
                proof {
                    assert(lines.deep_view().take(n as int) =~= lines.deep_view());
                }
            },
            None => {
            },
        }
        Ok((program, args))
    }

    /// Fill the resource's values into one template.
    fn expand(s: &str, uri: &str, out: &str, name: &String, size: &String, hash: &String) -> (r:
        String)
        ensures
            r@ == ed2k_expand_spec(s@, uri@, out@, name@, size@, hash@),
    {
        proof {
            reveal_strlit("{url}");
            reveal_strlit("{out}");
            reveal_strlit("{name}");
            reveal_strlit("{size}");
            reveal_strlit("{hash}");
        }
        let s1 = replace_all(s, "{url}", uri);
        let s2 = replace_all(s1.as_str(), "{out}", out);
        let s3 = replace_all(s2.as_str(), "{name}", name.as_str());
        let s4 = replace_all(s3.as_str(), "{size}", size.as_str());
        let s5 = replace_all(s4.as_str(), "{hash}", hash.as_str());
        s5
    }
}

/// The connection parameters of one FTP transfer.
pub struct FtpConn {
    pub host: String,
    pub port: u16,
    pub user: String,
    pub pass: String,
    pub path: String,
}

/// The FTP port: the `ftp_port` meta when it reads as a port number,
/// else the URL's explicit port, else the protocol default.
pub open spec fn ftp_conn_port_spec(meta: Seq<(Seq<char>, Seq<char>)>, p: UrlPartsView) -> int {
    let fallback: int = match p.port {
        Some(pt) => pt as int,
        None => 21,
    };
    match pairs_get(meta, "ftp_port"@) {
        Some(v) => if v.len() > 0 && all_digits(v) && decimal_value(v) <= u16::MAX {
            decimal_value(v)
        } else {
            fallback
        },
        None => fallback,
    }
}

/// The FTP user: the `ftp_user` meta, else the URL's user, else
/// anonymous.
pub open spec fn ftp_conn_user_spec(meta: Seq<(Seq<char>, Seq<char>)>, p: UrlPartsView) -> Seq<
    char,
> {
    match pairs_get(meta, "ftp_user"@) {
        Some(u) => u,
        None => if p.username.len() == 0 {
            "anonymous"@
        } else {
            p.username
        },
    }
}

/// The FTP password: the `ftp_pass` meta, else the URL's password,
/// else empty.
pub open spec fn ftp_conn_pass_spec(meta: Seq<(Seq<char>, Seq<char>)>, p: UrlPartsView) -> Seq<
    char,
> {
    match pairs_get(meta, "ftp_pass"@) {
        Some(v) => v,
        None => match p.password {
            Some(pw) => pw,
            None => Seq::empty(),
        },
    }
}

/// FTP transfer driver: the ranged `REST`+`RETR` transfers run over an
/// outside FTP connection; the connection parameters, the probe's
/// verdict and the retry backoff are decided and proved here.
pub struct FtpDriver;

impl FtpDriver {
    pub fn new() -> (r: Self) {
        FtpDriver
    }

    /// The FTP driver serves only FTP resources.
    pub fn supports(&self, rtype: ResourceType) -> (r: bool)
        ensures
            r == (rtype == ResourceType::Ftp),
    {
        match rtype {
            ResourceType::Ftp => true,
            _ => false,
        }
    }

    /// Connection parameters of a resource: credentials from the meta
    /// with the URL as fallback, and the path without its leading
    /// slashes. Fails exactly when the link does not parse or names no
    /// host.
    pub fn parse_conn(uri: &str, meta: &Vec<(String, String)>) -> (r: Result<
        FtpConn,
        DriverCommandError,
    >)
        ensures
            r matches Ok(c) ==> {
                &&& url_parse_spec(uri@) matches Some(p)
                &&& p.host matches Some(h) && c.host@ == h
                &&& c.port as int == ftp_conn_port_spec(meta.deep_view(), p)
                &&& c.user@ == ftp_conn_user_spec(meta.deep_view(), p)
                &&& c.pass@ == ftp_conn_pass_spec(meta.deep_view(), p)
                &&& c.path@ == strip_char_all(p.path, '/')
            },
            r is Err <==> (match url_parse_spec(uri@) {
                Some(p) => p.host is None,
                None => true,
            }),
    {
        let p = match parse_url(uri) {
            Some(p) => p,
            None => {
                return Err(DriverCommandError { message: String::from_str("not a valid url") });
            },
        };
        let host: String = match &p.host {
            Some(h) => h.clone(),
            None => {
                return Err(
                    DriverCommandError { message: String::from_str("ftp url missing host") },
                );
            },
        };
        let port: u16 = match lookup_pair(meta, "ftp_port") {
            Some(v) => match parse_u16(v.as_str()) {
                Some(pt) => pt,
                None => match p.port {
                    Some(pt) => pt,
                    None => 21,
                },
            },
            None => match p.port {
                Some(pt) => pt,
                None => 21,
            },
        };
        let user: String = match lookup_pair(meta, "ftp_user") {
            Some(u) => u.clone(),
            None => {
                if p.username.as_str().unicode_len() == 0 {
                    String::from_str("anonymous")
                } else {
                    p.username.clone()
                }
            },
        };
        let pass: String = match lookup_pair(meta, "ftp_pass") {
            Some(v) => v.clone(),
            None => match &p.password {
                Some(pw) => pw.clone(),
                None => String::new(),
            },
        };
        let path = strip_leading(p.path.as_str(), '/');
        Ok(FtpConn { host, port, user, pass, path })
    }

    /// What the `SIZE` probe means: the size when the server gave one,
    /// and range support exactly then — `REST` offsets are usable only
    /// with a known size.
    pub fn probe_outcome(size: Option<u64>) -> (r: (Option<u64>, bool))
        ensures
            r.0 == size,
            r.1 == (size is Some),
    {
        (size, size.is_some())
    }

    /// Milliseconds to wait before retry number `attempt + 1`; FTP
    /// retries back off exactly as HTTP ones do.
    pub fn backoff_delay_ms(base_backoff_ms: u64, attempt: u32) -> (r: u64)
        ensures
            r == crate::httpdriver::backoff_ms_spec(base_backoff_ms as int, attempt as int),
    {
        crate::httpdriver::HttpDriver::backoff_delay_ms(base_backoff_ms, attempt)
    }
}

} // verus!
