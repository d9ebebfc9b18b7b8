//! Shared-memory objects that carry pixels to the terminal.

use crate::encoding;
use crate::text;
use vstd::prelude::*;
use vstd::utf8::*;

verus! {

/// The longest name that every platform takes.
pub const MAX_NAME: usize = 31;

/// The name of a process's object.
pub open spec fn process_name(pid: u32) -> Seq<char> {
    "/webcat_"@ + text::dec(pid as nat)
}

/// The name of one of the objects that a process writes in turn.
pub open spec fn slot_name(pid: u32, slot: u8) -> Seq<char> {
    process_name(pid) + "_"@ + text::dec(slot as nat)
}

/// A shared-memory object, by name. A name begins with a slash and is short.
#[derive(Debug)]
pub struct Shm {
    name: String,
    name_b64: String,
}

/// `s` is a name that every platform takes for a shared-memory object.
pub open spec fn valid_name(s: Seq<char>) -> bool {
    &&& 1 < s.len() <= MAX_NAME
    &&& s[0] == '/'
    &&& forall|i: int| 1 <= i < s.len() ==> #[trigger] s[i] != '/' && s[i] as u32 != 0
}

impl Shm {
    /// The object's name.
    pub closed spec fn name_view(&self) -> Seq<char> {
        self.name@
    }

    /// The object's name in base64.
    pub closed spec fn payload(&self) -> Seq<char> {
        self.name_b64@
    }

    /// The name is one that every platform takes, and the payload decodes to it.
    pub open spec fn wf(&self) -> bool {
        &&& valid_name(self.name_view())
        &&& self.payload() == encoding::base64_encoded(encode_utf8(self.name_view()))
        &&& encoding::base64_decoded(self.payload()) == Some(encode_utf8(self.name_view()))
    }

    /// The object of the process `pid`.
    pub fn new(pid: u32) -> (r: Shm)
        ensures
            r.wf(),
            r.name_view() == process_name(pid),
    {
        let mut name: String = String::new();
        name.push_str("/webcat_");
        text::push_dec(&mut name, pid as u64);
        assert(name@ =~= process_name(pid));
        proof {
            lemma_process_name(pid);
        }
        Shm::named(name)
    }

    /// One of the objects that the process `pid` writes in turn.
    pub fn for_slot(pid: u32, slot: u8) -> (r: Shm)
        ensures
            r.wf(),
            r.name_view() == slot_name(pid, slot),
    {
        let mut name: String = String::new();
        name.push_str("/webcat_");
        text::push_dec(&mut name, pid as u64);
        name.push('_');
        text::push_dec(&mut name, slot as u64);
        proof {
            reveal_strlit("_");
            assert("_"@ =~= seq!['_']);
            assert(name@ =~= slot_name(pid, slot));
            lemma_slot_name(pid, slot);
        }
        Shm::named(name)
    }

    /// The object with the given name.
    fn named(name: String) -> (r: Shm)
        requires
            valid_name(name@),
            is_ascii_chars(name@),
        ensures
            r.wf(),
            r.name_view() == name@,
    {
        proof {
            is_ascii_chars_encode_utf8(name@);
        }
        let name_b64: String = encoding::encode(name.as_str().as_bytes());
        Shm { name, name_b64 }
    }

    /// The object's name.
    pub fn name(&self) -> (r: &str)
        ensures
            r@ == self.name_view(),
    {
        self.name.as_str()
    }

    /// The object's name in base64, the payload of the escape.
    pub fn name_base64(&self) -> (r: &str)
        ensures
            r@ == self.payload(),
    {
        self.name_b64.as_str()
    }
}

/// A 32-bit number has at most ten digits.
proof fn lemma_dec_u32(n: u32)
    ensures
        1 <= text::dec(n as nat).len() <= 10,
        text::all_digits(text::dec(n as nat)),
{
    text::law_dec_value(n as nat);
    assert(vstd::arithmetic::power::pow(10, 10) == 10_000_000_000) by {
        reveal_with_fuel(vstd::arithmetic::power::pow, 11);
    }
    text::lemma_dec_len(n as nat, 10);
}

/// The name of a process's object is valid.
proof fn lemma_process_name(pid: u32)
    ensures
        valid_name(process_name(pid)),
        is_ascii_chars(process_name(pid)),
        process_name(pid).len() <= 18,
{
    reveal_strlit("/webcat_");
    lemma_dec_u32(pid);
    let d = text::dec(pid as nat);
    let s = process_name(pid);
    assert forall|i: int| 1 <= i < s.len() implies #[trigger] s[i] != '/' && s[i] as u32 != 0
        && s[i] as u32 <= 127 by {
        if i >= 8 {
            assert(text::is_digit(d[i - 8]));
        }
    }
}

/// The name of a slot is valid.
proof fn lemma_slot_name(pid: u32, slot: u8)
    ensures
        valid_name(slot_name(pid, slot)),
        is_ascii_chars(slot_name(pid, slot)),
{
    lemma_process_name(pid);
    lemma_dec_u32(slot as u32);
    reveal_strlit("_");
    let p = process_name(pid);
    let d = text::dec(slot as nat);
    let s = slot_name(pid, slot);
    assert(s == p + "_"@ + d);
    assert forall|i: int| 0 <= i < s.len() implies (i > 0 ==> #[trigger] s[i] != '/') && s[i] as u32
        != 0 && s[i] as u32 <= 127 by {
        if i < p.len() {
            assert(s[i] == p[i]);
        } else if i > p.len() {
            assert(s[i] == d[i - p.len() - 1]);
            assert(text::is_digit(d[i - p.len() - 1]));
        }
    }
    assert(s[0] == p[0]);
}

/// Different slots of a process have different names.
pub proof fn law_slots_distinct(pid: u32, a: u8, b: u8)
    requires
        a != b,
    ensures
        slot_name(pid, a) != slot_name(pid, b),
{
    if slot_name(pid, a) == slot_name(pid, b) {
        let p = process_name(pid) + "_"@;
        assert(slot_name(pid, a).skip(p.len() as int) =~= text::dec(a as nat));
        assert(slot_name(pid, b).skip(p.len() as int) =~= text::dec(b as nat));
        text::law_dec_injective(a as nat, b as nat);
    }
}

/// Different processes have different names.
pub proof fn law_processes_distinct(a: u32, b: u32)
    requires
        a != b,
    ensures
        process_name(a) != process_name(b),
{
    if process_name(a) == process_name(b) {
        let p = "/webcat_"@;
        assert(process_name(a).skip(p.len() as int) =~= text::dec(a as nat));
        assert(process_name(b).skip(p.len() as int) =~= text::dec(b as nat));
        text::law_dec_injective(a as nat, b as nat);
    }
}

/// The system calls that write an object, and the two ways to finish.
#[derive(Debug, Clone, Copy, PartialEq, Eq, Structural)]
pub enum ShmCall {
    /// Unlink whatever has the name.
    UnlinkStale,
    /// Create the object and open it.
    Open,
    /// Set the object's length.
    Truncate,
    /// Map the object.
    MapMemory,
    /// Copy the pixels.
    CopyPixels,
    /// Unmap the object.
    Unmap,
    /// Close the object, which is written.
    Close,
    /// Close the object, which could not be written.
    CloseFailed,
    /// Unlink the object, which could not be written.
    UnlinkFailed,
    /// The object holds the pixels.
    Written,
    /// Nothing was written.
    Failed,
}

/// The call that follows a call, given whether that one succeeded. The old
/// object is unlinked first, since a length can only be set on a new one.
pub open spec fn call_after(call: ShmCall, ok: bool) -> ShmCall {
    match call {
        ShmCall::UnlinkStale => ShmCall::Open,
        ShmCall::Open => if ok {
            ShmCall::Truncate
        } else {
            ShmCall::Failed
        },
        ShmCall::Truncate => if ok {
            ShmCall::MapMemory
        } else {
            ShmCall::CloseFailed
        },
        ShmCall::MapMemory => if ok {
            ShmCall::CopyPixels
        } else {
            ShmCall::CloseFailed
        },
        ShmCall::CopyPixels => ShmCall::Unmap,
        ShmCall::Unmap => ShmCall::Close,
        ShmCall::Close => ShmCall::Written,
        ShmCall::CloseFailed => ShmCall::UnlinkFailed,
        ShmCall::UnlinkFailed => ShmCall::Failed,
        ShmCall::Written => ShmCall::Written,
        ShmCall::Failed => ShmCall::Failed,
    }
}

impl ShmCall {
    /// The first call of a write.
    pub fn first() -> (r: ShmCall)
        ensures
            r == ShmCall::UnlinkStale,
    {
        ShmCall::UnlinkStale
    }

    /// The call that follows.
    pub fn next(self, ok: bool) -> (r: ShmCall)
        ensures
            r == call_after(self, ok),
    {
        match self {
            ShmCall::UnlinkStale => ShmCall::Open,
            ShmCall::Open => if ok {
                ShmCall::Truncate
            } else {
                ShmCall::Failed
            },
            ShmCall::Truncate => if ok {
                ShmCall::MapMemory
            } else {
                ShmCall::CloseFailed
            },
            ShmCall::MapMemory => if ok {
                ShmCall::CopyPixels
            } else {
                ShmCall::CloseFailed
            },
            ShmCall::CopyPixels => ShmCall::Unmap,
            ShmCall::Unmap => ShmCall::Close,
            ShmCall::Close => ShmCall::Written,
            ShmCall::CloseFailed => ShmCall::UnlinkFailed,
            ShmCall::UnlinkFailed => ShmCall::Failed,
            ShmCall::Written => ShmCall::Written,
            ShmCall::Failed => ShmCall::Failed,
        }
    }
}

/// What a write holds while it runs.
pub struct Held {
    /// The descriptor is open.
    pub fd: bool,
    /// The object is mapped.
    pub map: bool,
    /// The write made the name, and it still stands.
    pub name: bool,
    /// The pixels are in the object.
    pub pixels: bool,
}

/// Nothing is held.
pub open spec fn nothing_held() -> Held {
    Held { fd: false, map: false, name: false, pixels: false }
}

/// What is held after a call.
pub open spec fn held_after(h: Held, call: ShmCall, ok: bool) -> Held {
    match call {
        ShmCall::Open => if ok {
            Held { fd: true, name: true, ..h }
        } else {
            h
        },
        ShmCall::MapMemory => if ok {
            Held { map: true, ..h }
        } else {
            h
        },
        ShmCall::CopyPixels => Held { pixels: h.map, ..h },
        ShmCall::Unmap => Held { map: false, ..h },
        ShmCall::Close | ShmCall::CloseFailed => Held { fd: false, ..h },
        ShmCall::UnlinkStale | ShmCall::UnlinkFailed => Held { name: false, ..h },
        _ => h,
    }
}

/// The call and the holdings after a number of calls with the given outcomes.
pub open spec fn after_calls(outcomes: Seq<bool>) -> (ShmCall, Held)
    decreases outcomes.len(),
{
    if outcomes.len() == 0 {
        (ShmCall::UnlinkStale, nothing_held())
    } else {
        let (call, h) = after_calls(outcomes.drop_last());
        (call_after(call, outcomes.last()), held_after(h, call, outcomes.last()))
    }
}

/// The holdings that belong to each call.
spec fn holds_at(call: ShmCall, h: Held) -> bool {
    match call {
        ShmCall::UnlinkStale | ShmCall::Open | ShmCall::Failed => h == nothing_held(),
        ShmCall::Truncate | ShmCall::MapMemory | ShmCall::CloseFailed => h == (Held {
            fd: true,
            map: false,
            name: true,
            pixels: false,
        }),
        ShmCall::CopyPixels => h == (Held { fd: true, map: true, name: true, pixels: false }),
        ShmCall::Unmap => h == (Held { fd: true, map: true, name: true, pixels: true }),
        ShmCall::Close => h == (Held { fd: true, map: false, name: true, pixels: true }),
        ShmCall::UnlinkFailed => h == (Held { fd: false, map: false, name: true, pixels: false }),
        ShmCall::Written => h == (Held { fd: false, map: false, name: true, pixels: true }),
    }
}

/// The holdings follow the calls.
proof fn lemma_holds(outcomes: Seq<bool>)
    ensures
        holds_at(after_calls(outcomes).0, after_calls(outcomes).1),
    decreases outcomes.len(),
{
    if outcomes.len() > 0 {
        lemma_holds(outcomes.drop_last());
    }
}

/// However the calls turn out, a finished write leaves no descriptor open and
/// nothing mapped; a failed one leaves no name behind either, and a successful
/// one leaves the object with the pixels under its name.
pub proof fn law_no_leak(outcomes: Seq<bool>)
    ensures
        after_calls(outcomes).0 == ShmCall::Failed ==> after_calls(outcomes).1 == nothing_held(),
        after_calls(outcomes).0 == ShmCall::Written ==> after_calls(outcomes).1 == (Held {
            fd: false,
            map: false,
            name: true,
            pixels: true,
        }),
{
    lemma_holds(outcomes);
}

/// A write is finished after seven calls, however they turn out.
pub proof fn law_write_ends(outcomes: Seq<bool>)
    requires
        outcomes.len() >= 7,
    ensures
        after_calls(outcomes).0 == ShmCall::Written || after_calls(outcomes).0 == ShmCall::Failed,
    decreases outcomes.len(),
{
    if outcomes.len() > 7 {
        law_write_ends(outcomes.drop_last());
    } else {
        reveal_with_fuel(after_calls, 8);
    }
}

} // verus!
