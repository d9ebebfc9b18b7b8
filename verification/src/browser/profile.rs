//! The Chrome binary, and the profile that only one browser can hold.

use crate::error::Error;
use crate::text;
use vstd::prelude::*;

verus! {

/// Where Chrome is looked for on macOS, in this order.
pub open spec fn mac_candidates() -> Seq<Seq<char>> {
    seq![
        "/Applications/Google Chrome.app/Contents/MacOS/Google Chrome"@,
        "/Applications/Chromium.app/Contents/MacOS/Chromium"@,
    ]
}

/// Where Chrome is looked for on other systems, in this order.
pub open spec fn linux_candidates() -> Seq<Seq<char>> {
    seq!["/usr/bin/google-chrome"@, "/usr/bin/chromium"@, "/usr/bin/chromium-browser"@]
}

/// The paths at which Chrome is looked for, in order.
pub fn chrome_candidates(macos: bool) -> (r: Vec<String>)
    ensures
        text::views(r@) == if macos {
            mac_candidates()
        } else {
            linux_candidates()
        },
{
    let mut out: Vec<String> = Vec::new();
    if macos {
        out.push("/Applications/Google Chrome.app/Contents/MacOS/Google Chrome".to_string());
        out.push("/Applications/Chromium.app/Contents/MacOS/Chromium".to_string());
        assert(text::views(out@) =~= mac_candidates());
    } else {
        out.push("/usr/bin/google-chrome".to_string());
        out.push("/usr/bin/chromium".to_string());
        out.push("/usr/bin/chromium-browser".to_string());
        assert(text::views(out@) =~= linux_candidates());
    }
    out
}

/// A path, and whether anything is there. `P` is the type of a path.
#[derive(Debug, Clone)]
pub struct Candidate<P> {
    pub path: P,
    pub exists: bool,
}

/// The first candidate that exists.
pub open spec fn first_existing<P>(c: Seq<Candidate<P>>) -> Option<P>
    decreases c.len(),
{
    if c.len() == 0 {
        None
    } else if c[0].exists {
        Some(c[0].path)
    } else {
        first_existing(c.skip(1))
    }
}

/// The Chrome binary: the one that was named, which must exist; where none was
/// named, the first of the candidates that exists.
pub fn discover_chrome<P>(
    explicit: Option<Candidate<P>>,
    candidates: Vec<Candidate<P>>,
) -> (r: Result<P, Error>)
    ensures
        match explicit {
            Some(c) => if c.exists {
                r == Ok::<P, Error>(c.path)
            } else {
                r == Err::<P, Error>(Error::ChromeNotFound)
            },
            None => match first_existing(candidates@) {
                Some(p) => r == Ok::<P, Error>(p),
                None => r == Err::<P, Error>(Error::ChromeNotFound),
            },
        },
{
    if let Some(c) = explicit {
        return if c.exists {
            Ok(c.path)
        } else {
            Err(Error::ChromeNotFound)
        };
    }
    let ghost all = candidates@;
    let mut list: Vec<Candidate<P>> = candidates;
    let n: usize = list.len();
    let mut i: usize = 0;
    assert(all.skip(0) =~= all);
    while i < n
        invariant
            i <= n,
            n == all.len(),
            list@ == all,
            all == candidates@,
            explicit is None,
            first_existing(all) == first_existing(all.skip(i as int)),
        decreases n - i,
    {
        if list[i].exists {
            let found: Candidate<P> = list.remove(i);
            return Ok(found.path);
        }
        assert(all.skip(i as int).skip(1) =~= all.skip(i + 1));
        i += 1;
    }
    Err(Error::ChromeNotFound)
}

/// The process that a lock names: the number behind the last hyphen of the
/// lock's target, which is a host and a process.
pub open spec fn lock_pid(target: Option<Seq<char>>) -> Option<i32> {
    match target {
        Some(t) => match text::parsed_i32(text::fields(t, '-').last()) {
            Some(n) => Some(n as i32),
            None => None,
        },
        None => None,
    }
}

/// The process that the profile's lock names, given what the lock points to.
pub fn singleton_lock_pid(target: Option<&str>) -> (r: Option<i32>)
    ensures
        r == lock_pid(crate::app::str_view(target)),
{
    match target {
        Some(t) => {
            let chars: Vec<char> = text::chars_of(t);
            let parts: Vec<&[char]> = text::split(chars.as_slice(), '-');
            let last: usize = parts.len() - 1;
            assert(text::contents(parts@).last() == parts@[last as int]@);
            text::parse_i32(parts[last])
        },
        None => None,
    }
}

/// Whether a process runs, given whether it took a signal. Numbers below one
/// name no process but groups of them.
pub fn pid_alive(pid: i32, answered: bool) -> (r: bool)
    ensures
        r == (pid > 0 && answered),
{
    pid > 0 && answered
}

/// The process that runs and holds the profile, given what the lock points to
/// and whether the process that it names took a signal.
pub fn detect_conflict(target: Option<&str>, answered: bool) -> (r: Option<i32>)
    ensures
        r == (match lock_pid(crate::app::str_view(target)) {
            Some(pid) => if pid > 0 && answered {
                Some(pid)
            } else {
                None
            },
            None => None,
        }),
{
    match singleton_lock_pid(target) {
        Some(pid) => if pid_alive(pid, answered) {
            Some(pid)
        } else {
            None
        },
        None => None,
    }
}

/// Which profile to use.
#[derive(Debug)]
pub enum ProfileChoice {
    /// The profile as it is.
    Usual,
    /// The profile, once the stale lock is cleared.
    UsualUnlocked,
    /// A profile of its own, by its name in the directory for temporary files.
    Private(String),
}

/// Which profile to use: the usual one where it is free, also where its lock is
/// stale; else one of its own, since Chrome would hang on a profile that is held.
pub fn resolve_profile(target: Option<&str>, answered: bool, own_pid: u32) -> (r: ProfileChoice)
    ensures
        match lock_pid(crate::app::str_view(target)) {
            Some(pid) => if pid > 0 && answered {
                r matches ProfileChoice::Private(name) && name@ == "webcat-profile-"@ + text::dec(
                    own_pid as nat,
                )
            } else {
                r == ProfileChoice::UsualUnlocked
            },
            None => r == ProfileChoice::Usual,
        },
{
    match singleton_lock_pid(target) {
        Some(pid) => if pid_alive(pid, answered) {
            let mut name: String = "webcat-profile-".to_string();
            text::push_dec(&mut name, own_pid as u64);
            ProfileChoice::Private(name)
        } else {
            ProfileChoice::UsualUnlocked
        },
        None => ProfileChoice::Usual,
    }
}

/// The files that make up the lock.
pub fn singleton_files() -> (r: Vec<String>)
    ensures
        text::views(r@) == seq!["SingletonLock"@, "SingletonCookie"@, "SingletonSocket"@],
{
    let mut out: Vec<String> = Vec::new();
    out.push("SingletonLock".to_string());
    out.push("SingletonCookie".to_string());
    out.push("SingletonSocket".to_string());
    assert(text::views(out@) =~= seq!["SingletonLock"@, "SingletonCookie"@, "SingletonSocket"@]);
    out
}

/// Two browsers of different processes never share a private profile.
pub proof fn law_private_profiles_distinct(a: u32, b: u32)
    requires
        a != b,
    ensures
        "webcat-profile-"@ + text::dec(a as nat) != "webcat-profile-"@ + text::dec(b as nat),
{
    let p = "webcat-profile-"@;
    if p + text::dec(a as nat) == p + text::dec(b as nat) {
        assert((p + text::dec(a as nat)).skip(p.len() as int) =~= text::dec(a as nat));
        assert((p + text::dec(b as nat)).skip(p.len() as int) =~= text::dec(b as nat));
        text::law_dec_injective(a as nat, b as nat);
    }
}

/// The lock of a process, whatever its host is called, names that process.
pub proof fn law_lock_names_process(host: Seq<char>, pid: u32)
    requires
        pid <= i32::MAX,
    ensures
        lock_pid(Some(host.push('-') + text::dec(pid as nat))) == Some(pid as i32),
{
    let d = text::dec(pid as nat);
    text::law_dec_value(pid as nat);
    lemma_last_field(host, d);
    assert(text::is_digit(d[0]));
}

/// The last piece is what stands behind the last separator.
proof fn lemma_last_field(a: Seq<char>, b: Seq<char>)
    requires
        !b.contains('-'),
    ensures
        text::fields(a.push('-') + b, '-').last() == b,
    decreases b.len(),
{
    let s = a.push('-') + b;
    if b.len() == 0 {
        assert(s.last() == '-');
        assert(b =~= Seq::<char>::empty());
    } else {
        let c = b.drop_last();
        assert(s.drop_last() =~= a.push('-') + c);
        assert(!c.contains('-')) by {
            if c.contains('-') {
                let k = choose|k: int| 0 <= k < c.len() && c[k] == '-';
                assert(b[k] == '-');
            }
        }
        lemma_last_field(a, c);
        text::law_fields_join(s.drop_last(), '-');
        assert(s.last() == b.last() && b.last() != '-');
        assert(c.push(b.last()) =~= b);
    }
}

/// Where the attempt to end a process stands.
#[derive(Debug, Clone, Copy, PartialEq, Eq, Structural)]
pub enum KillState {
    /// Nothing has been done.
    Fresh,
    /// The process was asked to end, and has been looked at so many times.
    Asked(u8),
    /// The process was forced to end.
    Forced,
}

/// What to do about a process.
#[derive(Debug, Clone, Copy, PartialEq, Eq, Structural)]
pub enum KillStep {
    /// Ask it to end (SIGTERM), wait, look whether it runs.
    Ask { wait_ms: u64 },
    /// Wait, look whether it runs.
    Wait { wait_ms: u64 },
    /// Force it to end (SIGKILL), wait, look whether it runs.
    Force { wait_ms: u64 },
    /// Nothing more; whether the process is gone.
    Finished { gone: bool },
}

/// How many times a process that was asked to end is looked at.
pub const KILL_POLLS: u8 = 20;

/// The next state and step, given whether the process runs. It is asked to end
/// first, and forced to after about two seconds.
pub open spec fn kill_after(state: KillState, alive: bool) -> (KillState, KillStep) {
    if !alive {
        (state, KillStep::Finished { gone: true })
    } else {
        match state {
            KillState::Fresh => (KillState::Asked(0), KillStep::Ask { wait_ms: 100 }),
            KillState::Asked(n) => if n + 1 < KILL_POLLS {
                (KillState::Asked((n + 1) as u8), KillStep::Wait { wait_ms: 100 })
            } else {
                (KillState::Forced, KillStep::Force { wait_ms: 200 })
            },
            KillState::Forced => (KillState::Forced, KillStep::Finished { gone: false }),
        }
    }
}

/// Ends the process that holds the profile, step by step.
#[derive(Debug, Clone, Copy, PartialEq, Eq, Structural)]
pub struct ProfileKiller {
    pub state: KillState,
}

impl ProfileKiller {
    /// Nothing has been done.
    pub fn new() -> (r: Self)
        ensures
            r.state == KillState::Fresh,
    {
        ProfileKiller { state: KillState::Fresh }
    }

    /// The next step, given whether the process runs.
    pub fn next(&mut self, alive: bool) -> (r: KillStep)
        ensures
            (final(self).state, r) == kill_after(old(self).state, alive),
    {
        if !alive {
            return KillStep::Finished { gone: true };
        }
        match self.state {
            KillState::Fresh => {
                self.state = KillState::Asked(0);
                KillStep::Ask { wait_ms: 100 }
            },
            KillState::Asked(n) => if n < KILL_POLLS - 1 {
                self.state = KillState::Asked(n + 1);
                KillStep::Wait { wait_ms: 100 }
            } else {
                self.state = KillState::Forced;
                KillStep::Force { wait_ms: 200 }
            },
            KillState::Forced => KillStep::Finished { gone: false },
        }
    }
}

/// The state after the process has been found running `n` times.
pub open spec fn kill_state_after(n: nat) -> KillState
    decreases n,
{
    if n == 0 {
        KillState::Fresh
    } else {
        kill_after(kill_state_after((n - 1) as nat), true).0
    }
}

/// How far a process that keeps running has been driven.
proof fn lemma_kill_state(n: nat)
    ensures
        n == 0 ==> kill_state_after(n) == KillState::Fresh,
        1 <= n <= 20 ==> kill_state_after(n) == KillState::Asked((n - 1) as u8),
        n >= 21 ==> kill_state_after(n) == KillState::Forced,
    decreases n,
{
    if n > 0 {
        lemma_kill_state((n - 1) as nat);
    }
}

/// A process that keeps running is asked once, then looked at twenty times, then
/// forced once, and then given up: force is never used before that, and the
/// attempt ends.
pub proof fn law_kill_ends(n: nat)
    ensures
        ({
            let step = kill_after(kill_state_after(n), true).1;
            &&& step is Ask <==> n == 0
            &&& step is Wait <==> 1 <= n < 20
            &&& step is Force <==> n == 20
            &&& step == KillStep::Finished { gone: false } <==> n >= 21
        }),
{
    lemma_kill_state(n);
}

} // verus!
