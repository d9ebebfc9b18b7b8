//! What reaches the page, and what is kept of it.

use crate::browser;
use crate::browser::profile;
use crate::browser::profile::{Candidate, KillState, KillStep, ProfileChoice};
use crate::browser::{
    Arg, ClickEvent, KeyDispatch, KeyEventKind, LoadEvent, LoadSignal, LoadingWatchdog, Navigation,
};
use crate::encoding;
use crate::error::Error;
use crate::json;
use crate::mcp::server;
use crate::observability::NetworkEntry;
use crate::terminal::keyboard::{Key, Mods};
use crate::terminal::mouse::MouseButton;
use crate::text;
use vstd::prelude::*;
use vstd::utf8::*;

verus! {

/// A key that is pressed by its name reaches the page under that name: every key
/// but the function keys is read back from the name under which it is sent.
pub proof fn law_key_is_sent_under_its_name(key: Key)
    requires
        !(key is F),
    ensures
        server::key_named(browser::key_desc(key).key) == Some(key),
{
    lemma_names_differ();
}

/// The names of the keys, told apart by a letter and their length.
pub proof fn lemma_names_differ()
    ensures
        "Enter"@[0] == 'E' && "Enter"@.len() == 5,
        "Backspace"@[0] == 'B',
        "Tab"@[0] == 'T' && "Tab"@.len() == 3,
        "Escape"@[0] == 'E' && "Escape"@[1] == 's' && "Escape"@.len() == 6,
        "Esc"@.len() == 3 && "Esc"@[0] == 'E' && "Esc"@[1] == 's',
        "ArrowUp"@.len() == 7 && "ArrowUp"@[0] == 'A',
        "Up"@.len() == 2,
        "ArrowDown"@.len() == 9 && "ArrowDown"@[0] == 'A',
        "Down"@.len() == 4 && "Down"@[0] == 'D',
        "ArrowLeft"@.len() == 9 && "ArrowLeft"@[0] == 'A' && "ArrowLeft"@[5] == 'L',
        "ArrowDown"@[5] == 'D',
        "Left"@.len() == 4 && "Left"@[0] == 'L',
        "ArrowRight"@.len() == 10 && "ArrowRight"@[0] == 'A',
        "Right"@.len() == 5 && "Right"@[0] == 'R',
        "Home"@.len() == 4 && "Home"@[0] == 'H',
        "End"@.len() == 3 && "End"@[0] == 'E' && "End"@[1] == 'n',
        "PageUp"@.len() == 6 && "PageUp"@[0] == 'P',
        "PageDown"@.len() == 8 && "PageDown"@[0] == 'P',
        "Delete"@.len() == 6 && "Delete"@[0] == 'D',
        "Backspace"@.len() == 9,
{
    reveal_strlit("Enter");
    reveal_strlit("Backspace");
    reveal_strlit("Tab");
    reveal_strlit("Escape");
    reveal_strlit("Esc");
    reveal_strlit("ArrowUp");
    reveal_strlit("Up");
    reveal_strlit("ArrowDown");
    reveal_strlit("Down");
    reveal_strlit("ArrowLeft");
    reveal_strlit("Left");
    reveal_strlit("ArrowRight");
    reveal_strlit("Right");
    reveal_strlit("Home");
    reveal_strlit("End");
    reveal_strlit("PageUp");
    reveal_strlit("PageDown");
    reveal_strlit("Delete");
}

/// Each named key is sent under its DOM name, which is its code too, and with its
/// virtual key code; the arrows' codes go round the clock from the left.
pub proof fn law_named_keys(key: Key)
    ensures
        ({
            let d = browser::key_desc(key);
            &&& !(key is Char) ==> d.code == d.key
            &&& key is Enter ==> d.key == "Enter"@ && d.key_code == 13 && d.text == Some("\r"@)
            &&& key is Backspace ==> d.key == "Backspace"@ && d.key_code == 8
            &&& key is Tab ==> d.key == "Tab"@ && d.key_code == 9
            &&& key is Esc ==> d.key == "Escape"@ && d.key_code == 27
            &&& key is PageUp ==> d.key == "PageUp"@ && d.key_code == 33
            &&& key is PageDown ==> d.key == "PageDown"@ && d.key_code == 34
            &&& key is End ==> d.key == "End"@ && d.key_code == 35
            &&& key is Home ==> d.key == "Home"@ && d.key_code == 36
            &&& key is Left ==> d.key == "ArrowLeft"@ && d.key_code == 37
            &&& key is Up ==> d.key == "ArrowUp"@ && d.key_code == 38
            &&& key is Right ==> d.key == "ArrowRight"@ && d.key_code == 39
            &&& key is Down ==> d.key == "ArrowDown"@ && d.key_code == 40
            &&& key is Delete ==> d.key == "Delete"@ && d.key_code == 46
            &&& key matches Key::F(n) ==> d.key == "F"@ + text::dec(n as nat) && d.key_code - n
                == 111
            &&& !(key is Char) && !(key is Enter) ==> d.text is None
        }),
{
}

/// A character is sent under itself and types itself; its virtual key code and
/// its code are those of its upper case, so both cases come from the same key.
pub proof fn law_character_keys(c: char)
    ensures
        ({
            let d = browser::key_desc(Key::Char(c));
            &&& d.key == seq![c]
            &&& d.text == Some(seq![c])
            &&& 'a' <= c <= 'z' ==> d.key_code == c as int - 32 && d.code == "Key"@ + seq![
                (c as int - 32) as char,
            ]
            &&& 'A' <= c <= 'Z' ==> d.key_code == c as int && d.code == "Key"@ + seq![c]
            &&& '0' <= c <= '9' ==> d.key_code == c as int && d.code == "Digit"@ + seq![c]
            &&& !('a' <= c <= 'z') && !('A' <= c <= 'Z') && !('0' <= c <= '9') ==> d.key_code
                == c as int && d.code.len() == 0
        }),
{
}

proof fn lemma_encoding_is_no_shorter(s: Seq<char>)
    ensures
        encode_utf8(s).len() >= s.len(),
    decreases s.len(),
{
    if s.len() > 0 {
        lemma_encoding_is_no_shorter(s.drop_first());
    }
}

/// A key goes down and up with its modifiers: a key that types goes down as such,
/// any other raw, and every key goes up alike.
pub proof fn law_key_goes_down_and_up(key: Key, mods: Mods, down: bool, r: KeyDispatch)
    requires
        call_ensures(browser::key_dispatch, (key, mods, down), r),
    ensures
        !down ==> r.kind == KeyEventKind::KeyUp,
        down && (key is Char || key is Enter) ==> r.kind == KeyEventKind::KeyDown,
        down && !(key is Char) && !(key is Enter) ==> r.kind == KeyEventKind::RawKeyDown,
        r.def@ == browser::key_desc(key),
        r.modifiers == browser::mods_number(mods),
{
    lemma_names_differ();
    let name = browser::key_desc(key).key;
    lemma_encoding_is_no_shorter(name);
    if let Key::F(n) = key {
        reveal_strlit("F");
        text::law_dec_value(n as nat);
        assert(name.len() >= 2);
    }
}

/// Each modifier has its own bit of the browser's number: Alt, Ctrl, Meta and
/// Shift from the lowest up.
pub proof fn law_modifier_has_its_bit(m: Mods)
    ensures
        ({
            let n = browser::mods_number(m);
            &&& 0 <= n < 16
            &&& (n % 2 == 1) == m.alt
            &&& (n / 2 % 2 == 1) == m.ctrl
            &&& (n / 4 % 2 == 1) == m.meta
            &&& (n / 8 % 2 == 1) == m.shift
        }),
{
}

/// A click moves the pointer to the place, presses the button with that button
/// alone held, and releases the same button.
pub proof fn law_click_is_a_press_and_a_release(b: MouseButton)
    ensures
        ({
            let s = browser::click_sequence(b);
            &&& s.len() == 3
            &&& s[0] == ClickEvent::Moved
            &&& s[1] == ClickEvent::Pressed {
                button: b,
                held: match b {
                    MouseButton::Left => 1,
                    MouseButton::Right => 2,
                    MouseButton::Middle => 4,
                },
            }
            &&& s[2] == ClickEvent::Released { button: b, held: 0 }
        }),
{
}

/// A value is shown before a description, a description before a type, and a
/// string without its quotes.
pub proof fn law_argument_is_shown(a: Arg)
    ensures
        ({
            let r = browser::arg_text(a);
            &&& a.value is Some && a.text is Some ==> r == a.text->0
            &&& a.value is Some && a.text is None ==> r == a.value->0
            &&& a.value is None && a.description is Some ==> r == a.description->0
            &&& a.value is None && a.description is None && a.kind is Some ==> r == a.kind->0
            &&& a.value is None && a.description is None && a.kind is None ==> r == seq!['?']
        }),
{
    reveal_strlit("?");
    assert("?"@ =~= seq!['?']);
}

/// The arguments are shown in their order, with one space between them, however
/// they are grouped.
pub proof fn law_arguments_are_joined(a: Seq<Arg>, b: Seq<Arg>)
    requires
        a.len() > 0,
        b.len() > 0,
    ensures
        browser::args_text(a + b) == browser::args_text(a).push(' ') + browser::args_text(b),
        a.len() == 1 ==> browser::args_text(a) == browser::arg_text(a[0]),
        browser::args_text(Seq::empty()).len() == 0,
    decreases b.len(),
{
    let all = a + b;
    assert(all.last() == b.last());
    if b.len() == 1 {
        assert(all.drop_last() =~= a);
    } else {
        assert(all.drop_last() =~= a + b.drop_last());
        law_arguments_are_joined(a, b.drop_last());
        assert(browser::args_text(all) =~= browser::args_text(a).push(' ') + browser::args_text(b));
    }
}

/// An argument is read from the members of its object: a string value counts as
/// text.
pub proof fn law_argument_members(j: Seq<char>)
    ensures
        browser::json_arg(j).value == json::any_member(j, "value"@),
        browser::json_arg(j).text == json::str_member(j, "value"@),
        browser::json_arg(j).description == json::str_member(j, "description"@),
        browser::json_arg(j).kind == json::str_member(j, "type"@),
{
}

/// An exception is logged by its description, which says more than its text.
pub proof fn law_exception_is_described(description: Option<String>, short: String, r: String)
    requires
        call_ensures(browser::exception_text, (description, short), r),
    ensures
        description matches Some(d) ==> r@ == d@,
        description is None ==> r@ == short@,
{
}

/// A line number that fits is kept.
pub proof fn law_line_number(n: Option<i64>, r: Option<u32>)
    requires
        call_ensures(browser::line_number, (n,), r),
    ensures
        n is None <==> r is None,
        n matches Some(k) ==> 0 <= k <= u32::MAX ==> r == Some(k as u32),
        n matches Some(k) ==> (k - r->0) % 0x1_0000_0000 == 0,
{
    if let Some(k) = n {
        let m = k as int % 0x1_0000_0000;
        assert(r == Some(m as u32));
        assert(m == r->0);
        vstd::arithmetic::div_mod::lemma_fundamental_div_mod(k as int, 0x1_0000_0000);
        vstd::arithmetic::div_mod::lemma_fundamental_div_mod_converse(
            k - m,
            0x1_0000_0000,
            k as int / 0x1_0000_0000,
            0,
        );
    }
}

/// The event of a request holds what was asked for, and nothing of an answer.
pub proof fn law_request_event(
    method: String,
    url: String,
    id: String,
    body: Option<String>,
    r: NetworkEntry,
)
    requires
        call_ensures(browser::request_entry, (method, url, id, body), r),
    ensures
        r@.kind == "request"@,
        r@.method == Some(method@),
        r@.url == url@,
        r@.request_id == id@,
        r@.request_body == text::opt_view(body),
        r@.status is None,
        r@.mime is None,
        r@.response_body is None,
        r@.response_body_base64 is None,
        r@.seq == 0,
{
}

/// The event of a response holds the answer's address, status and kind, under the
/// id of its request.
pub proof fn law_response_event(url: String, status: i64, mime: String, id: String, r: NetworkEntry)
    requires
        call_ensures(browser::response_entry, (url, status, mime, id), r),
    ensures
        r@.kind == "response"@,
        r@.url == url@,
        r@.status == Some(status),
        r@.mime == Some(mime@),
        r@.request_id == id@,
        r@.method is None,
        r@.request_body is None,
        r@.response_body is None,
        r@.response_body_base64 is None,
        r@.seq == 0,
{
}

/// The event of a failed request holds its id alone.
pub proof fn law_failed_event(id: String, r: NetworkEntry)
    requires
        call_ensures(browser::failed_entry, (id,), r),
    ensures
        r@.kind == "failed"@,
        r@.request_id == id@,
        r@.url.len() == 0,
        r@.method is None,
        r@.status is None,
        r@.mime is None,
        r@.request_body is None,
        r@.response_body is None,
        r@.seq == 0,
{
}

/// A piece of a request body that is not base64 of text stays as it came.
pub proof fn law_post_data_kept(data: Seq<char>, bytes: Option<Seq<u8>>)
    requires
        bytes is None || !valid_utf8(bytes->0),
    ensures
        browser::post_data(data, bytes) == data,
{
}

/// The pieces of a request body follow one another; a piece without data adds
/// nothing.
pub proof fn law_post_text_follows(a: Seq<Option<Seq<char>>>, b: Seq<Option<Seq<char>>>)
    ensures
        browser::post_text(a + b) == browser::post_text(a) + browser::post_text(b),
        browser::post_text(seq![None]).len() == 0,
        forall|data: Seq<char>| #[trigger]
            browser::post_text(seq![Some(data)]) == browser::post_data(
                data,
                encoding::base64_decoded(data),
            ),
    decreases b.len(),
{
    assert(browser::post_text(Seq::<Option<Seq<char>>>::empty()) =~= Seq::<char>::empty());
    assert(seq![None::<Seq<char>>].drop_last() =~= Seq::<Option<Seq<char>>>::empty());
    assert forall|data: Seq<char>| #[trigger]
        browser::post_text(seq![Some(data)]) == browser::post_data(
            data,
            encoding::base64_decoded(data),
        ) by {
        assert(seq![Some(data)].drop_last() =~= Seq::<Option<Seq<char>>>::empty());
        assert(browser::post_text(seq![Some(data)]) =~= browser::post_data(
            data,
            encoding::base64_decoded(data),
        ));
    }
    if b.len() == 0 {
        assert(a + b =~= a);
        assert(browser::post_text(a) + browser::post_text(b) =~= browser::post_text(a));
    } else {
        assert((a + b).drop_last() =~= a + b.drop_last());
        assert((a + b).last() == b.last());
        law_post_text_follows(a, b.drop_last());
        assert(browser::post_text(a + b) =~= browser::post_text(a) + browser::post_text(b));
    }
}

/// The body of a request is the text of its pieces; a request without pieces, or
/// with nothing in them, has none.
pub proof fn law_request_body(entries: &Option<Vec<Option<String>>>, r: Option<String>)
    requires
        call_ensures(browser::request_body, (entries,), r),
    ensures
        *entries is None ==> r is None,
        *entries matches Some(v) ==> match r {
            Some(s) => s@.len() > 0 && s@ == browser::post_text(
                v@.map_values(|p: Option<String>| text::opt_view(p)),
            ),
            None => browser::post_text(
                v@.map_values(|p: Option<String>| text::opt_view(p)),
            ).len() == 0,
        },
{
    if let Some(v) = *entries {
        assert(browser::pieces_view(v@) =~= v@.map_values(|p: Option<String>| text::opt_view(p)));
    }
}

/// The bytes of a screenshot are those that its base64 stands for.
pub proof fn law_screenshot_is_decoded(data: &str, r: Option<Vec<u8>>)
    requires
        call_ensures(browser::decode_screenshot, (data,), r),
    ensures
        r is None <==> encoding::base64_decoded(data@) is None,
        r matches Some(b) ==> encoding::base64_decoded(data@) == Some(b@),
{
}

/// A console call is logged as its arguments, each read from its object.
pub proof fn law_console_call(args: &[String], r: String)
    requires
        call_ensures(browser::console_json_to_text, (args,), r),
    ensures
        r@ == browser::args_text(Seq::new(args@.len(), |i: int| browser::json_arg(args@[i]@))),
{
    assert(text::views(args@).map_values(|j: Seq<char>| browser::json_arg(j)) =~= Seq::new(
        args@.len(),
        |i: int| browser::json_arg(args@[i]@),
    ));
}

/// A command whose answer did not come in time was given all the same, so the
/// page is watched; any other error is the navigation's.
pub proof fn law_late_answer_is_no_failure(error: Option<&str>, r: Navigation)
    requires
        call_ensures(browser::navigation_after, (error,), r),
    ensures
        error is None ==> r == Navigation::Watch,
        error matches Some(e) ==> (r == Navigation::Watch <==> text::occurs(
            e@,
            "Request timed out"@,
        )),
        r == Navigation::Watch || r == Navigation::Failed,
{
}

/// A page that is not complete has not loaded; a complete one has, once it is
/// another page than the one that was left, and the same page from the tenth look
/// on.
pub proof fn law_loaded(
    attempt: u32,
    state: Option<Seq<char>>,
    href: Option<Seq<char>>,
    before: Option<Seq<char>>,
)
    ensures
        state != Some("complete"@) ==> !browser::has_loaded(attempt, state, href, before),
        before is None ==> browser::has_loaded(attempt, Some("complete"@), href, before),
        href is Some && before is Some && href != before ==> browser::has_loaded(
            attempt,
            Some("complete"@),
            href,
            before,
        ),
        href is None && before is Some && before->0.len() > 0 ==> browser::has_loaded(
            attempt,
            Some("complete"@),
            href,
            before,
        ),
        href is None && before is Some && before->0.len() == 0 ==> browser::has_loaded(
            attempt,
            Some("complete"@),
            href,
            before,
        ) == (attempt >= 10),
        href is Some && before == href ==> browser::has_loaded(
            attempt,
            Some("complete"@),
            href,
            before,
        ) == (attempt >= 10),
{
    if before is Some && before->0.len() == 0 {
        assert(before->0 =~= Seq::<char>::empty());
    }
}

/// A page is looked at eighty times at the most: the last look ends the watch,
/// whatever it shows.
pub proof fn law_watch_ends(w: &mut LoadingWatchdog, state: Option<&str>, href: Option<&str>, r: bool)
    requires
        old(w).attempt < 80,
        call_ensures(LoadingWatchdog::look, (w, state, href), r),
    ensures
        final(w).attempt == old(w).attempt + 1,
        old(w).attempt == 79 ==> r,
        old(w).attempt < 79 ==> r == browser::has_loaded(
            old(w).attempt,
            crate::app::str_view(state),
            crate::app::str_view(href),
            text::opt_view(old(w).before_url),
        ),
{
}

/// The page's state is read from its answer; where it gave none it is not
/// complete.
pub proof fn law_page_answers(w: &mut LoadingWatchdog, answer: Option<&str>, r: bool)
    requires
        old(w).attempt < 79,
        call_ensures(LoadingWatchdog::look_at, (w, answer), r),
    ensures
        final(w).attempt == old(w).attempt + 1,
        final(w).before_url == old(w).before_url,
        answer is None ==> !r,
        answer matches Some(a) ==> r == browser::has_loaded(
            old(w).attempt,
            json::str_member(a@, "readyState"@),
            json::str_member(a@, "href"@),
            text::opt_view(old(w).before_url),
        ),
{
}

/// How often and how long a loading page is watched, and how much of its traffic
/// is kept for us.
pub proof fn law_watch_rhythm()
    ensures
        browser::WATCH_START_MS == 200,
        browser::WATCH_PAUSE_MS == 100,
        browser::WATCH_POLLS == 80,
        browser::NETWORK_BUFFER_BYTES == 64 * 1024 * 1024,
{
}

/// A watch begins with the first look, on the page that was left.
pub proof fn law_watch_begins(before: Option<String>, r: LoadingWatchdog)
    requires
        call_ensures(LoadingWatchdog::new, (before,), r),
    ensures
        r.attempt == 0,
        r.before_url == before,
{
}

/// The page loads from the start of a frame to its stop; only the load of the
/// page counts as one more.
pub proof fn law_load_is_told(ev: LoadEvent, completed: u64, r: LoadSignal)
    requires
        completed < u64::MAX,
        call_ensures(browser::load_signal, (ev, completed), r),
    ensures
        r.loading <==> ev == LoadEvent::Started,
        r.navigation is Some <==> ev == LoadEvent::Loaded,
        r.navigation matches Some(n) ==> n == completed + 1,
{
}

/// The mark of a headless browser is taken out of the user agent, and the rest of
/// it stays.
pub proof fn law_user_agent(ua: &str, a: Seq<char>, b: Seq<char>, r: String)
    requires
        ua@ == a + "HeadlessChrome"@ + b,
        !a.contains('H'),
        !b.contains('H'),
        call_ensures(browser::real_user_agent, (ua,), r),
    ensures
        r@ == a + "Chrome"@ + b,
{
    reveal_strlit("HeadlessChrome");
    crate::laws::words::law_replaced(a, "HeadlessChrome"@, "Chrome"@, b);
    crate::laws::words::law_nothing_replaced(b, "HeadlessChrome"@, "Chrome"@);
}

/// The browser is started with the four arguments, the scale among them.
pub proof fn law_launch_arguments(scale: Seq<char>)
    ensures
        ({
            let args = browser::launch_arguments(scale);
            &&& args.len() == 4
            &&& args.contains("--remote-allow-origins=*"@)
            &&& args.contains("--high-dpi-support=1"@)
            &&& args.contains(scale)
            &&& args.contains("--disable-blink-features=AutomationControlled"@)
        }),
{
    let args = browser::launch_arguments(scale);
    assert(args[0] == "--remote-allow-origins=*"@);
    assert(args[1] == "--high-dpi-support=1"@);
    assert(args[2] == scale);
    assert(args[3] == "--disable-blink-features=AutomationControlled"@);
}

/// The scale argument holds the scale as it is written.
pub proof fn law_scale_argument(shown: &str, r: String)
    requires
        call_ensures(browser::force_device_scale_arg, (shown,), r),
    ensures
        r@ == "--force-device-scale-factor="@ + shown@,
{
}

/// A frame's bytes are those that its base64 stands for, and a frame that is no
/// base64 has none.
pub proof fn law_frame_is_decoded(data: &str, r: Vec<u8>)
    requires
        call_ensures(browser::decode_frame, (data,), r),
    ensures
        encoding::base64_decoded(data@) is None ==> r@.len() == 0,
        encoding::base64_decoded(data@) matches Some(b) ==> r@ == b,
{
}

/// The first candidate that exists is taken: it exists, and none before it does.
pub proof fn law_first_existing<P>(c: Seq<Candidate<P>>, i: int)
    requires
        0 <= i < c.len(),
        c[i].exists,
        forall|k: int| 0 <= k < i ==> !(#[trigger] c[k]).exists,
    ensures
        profile::first_existing(c) == Some(c[i].path),
    decreases c.len(),
{
    if i > 0 {
        assert(!c[0].exists);
        let rest = c.skip(1);
        assert forall|k: int| 0 <= k < i - 1 implies !(#[trigger] rest[k]).exists by {
            assert(!c[k + 1].exists);
        }
        law_first_existing(rest, i - 1);
    }
}

/// Where no candidate exists there is no browser.
pub proof fn law_none_existing<P>(c: Seq<Candidate<P>>)
    requires
        forall|k: int| 0 <= k < c.len() ==> !(#[trigger] c[k]).exists,
    ensures
        profile::first_existing(c) is None,
    decreases c.len(),
{
    if c.len() > 0 {
        assert(!c[0].exists);
        let rest = c.skip(1);
        assert forall|k: int| 0 <= k < rest.len() implies !(#[trigger] rest[k]).exists by {
            assert(!c[k + 1].exists);
        }
        law_none_existing(rest);
    }
}

/// A browser that was named is the one, or an error where it does not exist: no
/// other is looked for in its place.
pub proof fn law_named_browser<P>(
    explicit: Option<Candidate<P>>,
    others: Vec<Candidate<P>>,
    r: Result<P, Error>,
)
    requires
        call_ensures(profile::discover_chrome::<P>, (explicit, others), r),
    ensures
        explicit matches Some(c) ==> (c.exists ==> r == Ok::<P, Error>(c.path)) && (!c.exists ==> r
            == Err::<P, Error>(Error::ChromeNotFound)),
        explicit is None ==> r == (match profile::first_existing(others@) {
            Some(p) => Ok::<P, Error>(p),
            None => Err(Error::ChromeNotFound),
        }),
{
}

/// Chrome comes before Chromium on every system.
pub proof fn law_candidates()
    ensures
        profile::mac_candidates() == seq![
            "/Applications/Google Chrome.app/Contents/MacOS/Google Chrome"@,
            "/Applications/Chromium.app/Contents/MacOS/Chromium"@,
        ],
        profile::linux_candidates() == seq![
            "/usr/bin/google-chrome"@,
            "/usr/bin/chromium"@,
            "/usr/bin/chromium-browser"@,
        ],
{
}

/// A conflict is a process that runs: a stale lock, a lock without a number and
/// no lock are none.
pub proof fn law_conflict_is_alive(target: Option<&str>, answered: bool, r: Option<i32>)
    requires
        call_ensures(profile::detect_conflict, (target, answered), r),
    ensures
        r matches Some(pid) ==> answered && pid > 0 && profile::lock_pid(
            crate::app::str_view(target),
        ) == Some(pid),
        r is None ==> !answered || (match profile::lock_pid(crate::app::str_view(target)) {
            Some(pid) => pid <= 0,
            None => true,
        }),
{
}

/// A lock that is a number alone names that process.
pub proof fn law_lock_of_a_number(pid: u32)
    requires
        pid <= i32::MAX,
    ensures
        profile::lock_pid(Some(text::dec(pid as nat))) == Some(pid as i32),
{
    let d = text::dec(pid as nat);
    text::law_dec_value(pid as nat);
    text::lemma_fields_single(d, '-');
    assert(text::is_digit(d[0]));
}

/// No lock names no process, and neither does one without a number behind its
/// last hyphen.
pub proof fn law_lock_without_a_process(t: Seq<char>)
    requires
        text::parsed_i32(text::fields(t, '-').last()) is None,
    ensures
        profile::lock_pid(None) is None,
        profile::lock_pid(Some(t)) is None,
{
}

/// The usual profile is used unless a running process holds it; then the profile
/// is one of its own, named after this process.
pub proof fn law_profile_choice(target: Option<&str>, answered: bool, own: u32, r: ProfileChoice)
    requires
        call_ensures(profile::resolve_profile, (target, answered, own), r),
    ensures
        ({
            let holder = profile::lock_pid(crate::app::str_view(target));
            let held = answered && holder is Some && holder->0 > 0;
            &&& held <==> r is Private
            &&& r matches ProfileChoice::Private(name) ==> name@ == "webcat-profile-"@ + text::dec(
                own as nat,
            )
            &&& holder is None ==> r is Usual
            &&& holder is Some && !held ==> r is UsualUnlocked
        }),
{
}

/// A lock is three files.
pub proof fn law_lock_files(r: Vec<String>)
    requires
        call_ensures(profile::singleton_files, (), r),
    ensures
        text::views(r@) == seq!["SingletonLock"@, "SingletonCookie"@, "SingletonSocket"@],
{
}

/// A process that is gone is never touched again, and the attempt says so.
pub proof fn law_gone_is_gone(state: KillState)
    ensures
        profile::kill_after(state, false) == (state, KillStep::Finished { gone: true }),
{
}

/// After each request a tenth of a second passes, after force two.
pub proof fn law_kill_waits(state: KillState)
    ensures
        match profile::kill_after(state, true).1 {
            KillStep::Ask { wait_ms } => wait_ms == 100,
            KillStep::Wait { wait_ms } => wait_ms == 100,
            KillStep::Force { wait_ms } => wait_ms == 200,
            KillStep::Finished { gone } => !gone,
        },
{
}

} // verus!
