//! `--install-service` / `--remove-service`: manage the systemd **user** service
//! `sd_rust`. The daemon runs as a normal user, never root. The generated unit is
//! hardened, with a guard against path-injection in ExecStart.

use vstd::prelude::*;

use crate::path;
use crate::text;

verus! {

pub const SERVICE_NAME: &'static str = "sd_rust";

/// The directory of the user's units, below their config directory.
pub open spec fn unit_dir(config_dir: Seq<char>) -> Seq<char> {
    path::joined(path::joined(config_dir, "systemd"@), "user"@)
}

/// The directory of the user's units.
pub fn service_dir(config_dir: Option<&str>) -> (r: Option<String>)
    ensures
        match config_dir {
            Some(d) => r is Some && r->0@ == unit_dir(d@),
            None => r is None,
        },
{
    match config_dir {
        Some(d) => {
            let systemd = path::join(d, "systemd");
            Some(path::join(systemd.as_str(), "user"))
        },
        None => None,
    }
}

/// The path of the unit.
pub fn service_path(config_dir: Option<&str>) -> (r: Option<String>)
    ensures
        match config_dir {
            Some(d) => r is Some && r->0@ == path::joined(unit_dir(d@), "sd_rust.service"@),
            None => r is None,
        },
{
    match service_dir(config_dir) {
        Some(dir) => Some(path::join(dir.as_str(), "sd_rust.service")),
        None => None,
    }
}

/// Whether a character can't be safely embedded in the double-quoted
/// `ExecStart="…"`.
///
///   `"`  closes the quoted string
///   `\`  is the escape character
///   `$`  triggers variable expansion
///   `%`  introduces a systemd specifier (expanded even inside quotes)
///   control chars (esp. newline) terminate the value/line
pub open spec fn is_disallowed(c: char) -> bool {
    c == '"' || c == '\\' || c == '$' || c == '%' || text::is_control(c)
}

/// Whether a path can be safely embedded.
pub open spec fn is_safe(p: Seq<char>) -> bool {
    forall|i: int| 0 <= i < p.len() ==> !is_disallowed(#[trigger] p[i])
}

/// Reject binary paths that can't be safely embedded in the unit, with the first
/// character that is in the way. We refuse rather than escape: no real-world Linux
/// install puts these characters in a binary path.
pub fn check_path_for_unit_file(p: &str) -> (r: Result<(), char>)
    ensures
        match r {
            Ok(()) => is_safe(p@),
            Err(c) => exists|i: int|
                0 <= i < p@.len() && #[trigger] p@[i] == c && is_disallowed(c) && is_safe(p@.take(i)),
        },
{
    let v = text::chars(p);
    let mut i: usize = 0;
    while i < v.len()
        invariant
            v@ == p@,
            i <= v.len(),
            forall|j: int| 0 <= j < i ==> !is_disallowed(#[trigger] v@[j]),
        decreases v.len() - i,
    {
        let c = v[i];
        if c == '"' || c == '\\' || c == '$' || c == '%' || text::control(c) {
            assert(is_safe(p@.take(i as int)));
            assert(p@[i as int] == c);
            return Err(c);
        }
        i = i + 1;
    }
    Ok(())
}

/// The unit up to the binary's path.
pub const UNIT_HEAD: &'static str = "[Unit]
Description=Stream Deck MK.2 Controller (sd_rust)
After=graphical-session.target
Wants=graphical-session.target

[Service]
ExecStart=\"";

/// The unit behind the binary's path. Its hardening leaves the daemon what it
/// needs: HID I/O and uinput below /dev, a UNIX socket for audio, TCP for OBS,
/// D-Bus, and reading the config and the icons.
pub const UNIT_TAIL: &'static str = "\"
Restart=on-failure
RestartSec=5

# Gives us a writable /run/user/<uid>/sd_rust that KWin can also read — needed
# for the launch-or-raise feature, which hands KWin a small activation script.
RuntimeDirectory=sd_rust

# Hardening
NoNewPrivileges=yes
ProtectSystem=strict
ProtectHome=read-only
PrivateTmp=yes
ProtectKernelTunables=yes
ProtectKernelModules=yes
ProtectKernelLogs=yes
ProtectControlGroups=yes
ProtectClock=yes
RestrictNamespaces=yes
RestrictRealtime=yes
RestrictSUIDSGID=yes
LockPersonality=yes
MemoryDenyWriteExecute=yes
RestrictAddressFamilies=AF_UNIX AF_INET AF_INET6
SystemCallFilter=@system-service
SystemCallArchitectures=native

[Install]
WantedBy=default.target
";

/// The unit for a binary.
pub open spec fn unit(bin_path: Seq<char>) -> Seq<char> {
    UNIT_HEAD@ + bin_path + UNIT_TAIL@
}

/// The unit for the binary at `bin_path`.
pub fn generate_service_file(bin_path: &str) -> (r: String)
    ensures
        r@ == unit(bin_path@),
{
    let mut out = text::chars(UNIT_HEAD);
    text::append(&mut out, bin_path);
    text::append(&mut out, UNIT_TAIL);
    text::string(&out)
}

proof fn split_keeps_piece(s: Seq<char>, p: Seq<char>)
    requires
        is_safe(p),
    ensures
        text::split_on(s + p, '\n') == text::split_on(s, '\n').drop_last().push(
            text::split_on(s, '\n').last() + p,
        ),
    decreases p.len(),
{
    let before = text::split_on(s, '\n');
    text::split_on_some(s, '\n');
    if p.len() == 0 {
        assert(s + p =~= s);
        assert(before.last() + p =~= before.last());
        assert(before.drop_last().push(before.last()) =~= before);
    } else {
        let q = p.drop_last();
        assert forall|i: int| 0 <= i < q.len() implies !is_disallowed(#[trigger] q[i]) by {
            assert(q[i] == p[i]);
        }
        split_keeps_piece(s, q);
        assert((s + p).drop_last() =~= s + q);
        assert(!is_disallowed(p[p.len() - 1]));
        let mid = before.drop_last().push(before.last() + q);
        assert(mid.drop_last() =~= before.drop_last());
        assert((before.last() + q).push(p.last()) =~= before.last() + p);
    }
}

proof fn split_goes_on(s: Seq<char>, t: Seq<char>)
    ensures
        text::split_on(s + t, '\n') == text::split_on(s, '\n').drop_last() + seq![
            text::split_on(s, '\n').last() + text::split_on(t, '\n')[0],
        ] + text::split_on(t, '\n').drop_first(),
    decreases t.len(),
{
    let a = text::split_on(s, '\n');
    let b = text::split_on(t, '\n');
    text::split_on_some(s, '\n');
    text::split_on_some(t, '\n');
    let whole = a.drop_last() + seq![a.last() + b[0]] + b.drop_first();
    if t.len() == 0 {
        assert(s + t =~= s);
        assert(a.last() + b[0] =~= a.last());
        assert(whole =~= a);
    } else {
        let u = t.drop_last();
        let c = text::split_on(u, '\n');
        text::split_on_some(u, '\n');
        split_goes_on(s, u);
        assert((s + t).drop_last() =~= s + u);
        let mid = a.drop_last() + seq![a.last() + c[0]] + c.drop_first();
        if t.last() == '\n' {
            assert(mid.push(Seq::<char>::empty()) =~= whole);
        } else if c.len() == 1 {
            assert((a.last() + c[0]).push(t.last()) =~= a.last() + b[0]);
            assert(mid.drop_last().push(mid.last().push(t.last())) =~= whole);
        } else {
            assert(mid.last() == c.last());
            assert(mid.drop_last().push(mid.last().push(t.last())) =~= whole);
        }
    }
}

/// A safe path stays on its line: the lines of the unit are those of its two
/// parts, but for the one in which the path stands, so nothing in the path can add
/// a directive.
pub proof fn path_stays_on_its_line(p: Seq<char>)
    requires
        is_safe(p),
    ensures
        ({
            let head = text::split_on(UNIT_HEAD@, '\n');
            let tail = text::split_on(UNIT_TAIL@, '\n');
            text::split_on(unit(p), '\n') == head.drop_last() + seq![
                head.last() + p + tail[0],
            ] + tail.drop_first()
        }),
{
    split_keeps_piece(UNIT_HEAD@, p);
    split_goes_on(UNIT_HEAD@ + p, UNIT_TAIL@);
    let head = text::split_on(UNIT_HEAD@, '\n');
    assert(head.drop_last().push(head.last() + p).drop_last() =~= head.drop_last());
}

/// A thing to do to the service.
#[derive(Debug, Clone, Copy, PartialEq, Eq, Structural)]
pub enum ServiceStep {
    /// `systemctl --user stop`, which may fail.
    TryStop,
    /// `systemctl --user disable`, which may fail.
    TryDisable,
    /// Create the directory of the unit.
    CreateDir,
    /// Write the unit.
    WriteUnit,
    /// Remove the unit.
    RemoveUnit,
    /// `systemctl --user daemon-reload`.
    Reload,
    /// `systemctl --user enable`.
    Enable,
    /// `systemctl --user start`.
    Start,
}

/// Install the service: in place of the one that is there only where that was
/// agreed to, and after stopping it.
pub fn install(present: bool, overwrite: bool) -> (r: Vec<ServiceStep>)
    ensures
        r@ == (if present && !overwrite {
            Seq::empty()
        } else {
            (if present {
                seq![ServiceStep::TryStop, ServiceStep::TryDisable]
            } else {
                Seq::empty()
            }) + seq![
                ServiceStep::CreateDir,
                ServiceStep::WriteUnit,
                ServiceStep::Reload,
                ServiceStep::Enable,
                ServiceStep::Start,
            ]
        }),
{
    let mut steps: Vec<ServiceStep> = Vec::new();
    if present {
        if !overwrite {
            return steps;
        }
        steps.push(ServiceStep::TryStop);
        steps.push(ServiceStep::TryDisable);
    }
    steps.push(ServiceStep::CreateDir);
    steps.push(ServiceStep::WriteUnit);
    steps.push(ServiceStep::Reload);
    steps.push(ServiceStep::Enable);
    steps.push(ServiceStep::Start);
    steps
}

/// Remove the service, where it is installed.
pub fn remove(present: bool) -> (r: Vec<ServiceStep>)
    ensures
        r@ == (if present {
            seq![
                ServiceStep::TryStop,
                ServiceStep::TryDisable,
                ServiceStep::RemoveUnit,
                ServiceStep::Reload,
            ]
        } else {
            Seq::empty()
        }),
{
    let mut steps: Vec<ServiceStep> = Vec::new();
    if present {
        steps.push(ServiceStep::TryStop);
        steps.push(ServiceStep::TryDisable);
        steps.push(ServiceStep::RemoveUnit);
        steps.push(ServiceStep::Reload);
    }
    steps
}

/// The arguments of a step's `systemctl`, where it has one.
pub fn systemctl_args(step: ServiceStep) -> (r: Vec<String>)
    ensures
        text::views(r@) == (match step {
            ServiceStep::TryStop => seq!["--user"@, "stop"@, SERVICE_NAME@],
            ServiceStep::TryDisable => seq!["--user"@, "disable"@, SERVICE_NAME@],
            ServiceStep::Reload => seq!["--user"@, "daemon-reload"@],
            ServiceStep::Enable => seq!["--user"@, "enable"@, SERVICE_NAME@],
            ServiceStep::Start => seq!["--user"@, "start"@, SERVICE_NAME@],
            _ => Seq::empty(),
        }),
{
    let verb = match step {
        ServiceStep::TryStop => "stop",
        ServiceStep::TryDisable => "disable",
        ServiceStep::Reload => "daemon-reload",
        ServiceStep::Enable => "enable",
        ServiceStep::Start => "start",
        _ => {
            let none: Vec<String> = Vec::new();
            assert(text::views(none@) =~= Seq::<Seq<char>>::empty());
            return none;
        },
    };
    let mut args: Vec<String> = Vec::new();
    args.push("--user".to_string());
    args.push(verb.to_string());
    if step != ServiceStep::Reload {
        args.push(SERVICE_NAME.to_string());
        assert(text::views(args@) =~= seq!["--user"@, verb@, SERVICE_NAME@]);
    } else {
        assert(text::views(args@) =~= seq!["--user"@, verb@]);
    }
    args
}

/// A path is safe exactly where it holds no quote, no backslash, no dollar or percent
/// sign and no control code; parts that are safe make a whole that is.
pub proof fn safe_paths(p: Seq<char>, q: Seq<char>)
    ensures
        is_safe(p) <==> forall|i: int|
            0 <= i < p.len() ==> {
                let c = #[trigger] p[i];
                c != '"' && c != '\\' && c != '$' && c != '%' && !(c <= '\u{1f}') && !('\u{7f}' <= c
                    <= '\u{9f}')
            },
        is_safe(p + q) <==> is_safe(p) && is_safe(q),
{
    if is_safe(p + q) {
        assert forall|i: int| 0 <= i < p.len() implies !is_disallowed(#[trigger] p[i]) by {
            assert((p + q)[i] == p[i]);
        }
        assert forall|i: int| 0 <= i < q.len() implies !is_disallowed(#[trigger] q[i]) by {
            assert((p + q)[p.len() + i] == q[i]);
        }
    }
}

/// The unit holds the path of its binary as it is, and what stands around the path
/// does not depend on it: units of two binaries differ.
pub proof fn units_start_their_binary(p: Seq<char>, q: Seq<char>)
    ensures
        unit(p) == unit(Seq::empty()).take(UNIT_HEAD@.len() as int) + p + unit(Seq::empty()).skip(
            UNIT_HEAD@.len() as int,
        ),
        unit(p) == unit(q) ==> p == q,
{
    let none = Seq::<char>::empty();
    let e = unit(none);
    assert(e.take(UNIT_HEAD@.len() as int) =~= UNIT_HEAD@);
    assert(e.skip(UNIT_HEAD@.len() as int) =~= UNIT_TAIL@);
    if unit(p) == unit(q) {
        assert(unit(p).len() == unit(q).len());
        assert forall|i: int| 0 <= i < p.len() implies p[i] == q[i] by {
            assert(unit(p)[UNIT_HEAD@.len() + i] == unit(q)[UNIT_HEAD@.len() + i]);
        }
        assert(p =~= q);
    }
}

/// The unit lies below the user's configuration, in the directory of user units.
pub proof fn units_lie_with_the_users_units(config_dir: Seq<char>)
    requires
        config_dir.len() > 0,
        config_dir.last() != '/',
    ensures
        unit_dir(config_dir) == config_dir + "/"@ + "systemd"@ + "/"@ + "user"@,
{
    reveal_strlit("systemd");
    reveal_strlit("user");
    reveal_strlit("/");
    let d = path::joined(config_dir, "systemd"@);
    assert(d == config_dir + "/"@ + "systemd"@);
    assert(d.last() == "systemd"@[6]);
}

} // verus!
