//! Bounds every value that enters the configuration: sizes, opacity, monitor,
//! addresses and hotkey descriptors.

use crate::address::{
    is_settled, is_settled_url, is_web_address, normalize_spec, normalize_url, InvalidUrl,
};
use crate::config::{
    default_home_text, default_home_url, AppConfig, AppConfigView, HotkeyConfig, HotkeyConfigView,
    WindowConfig, MAX_HOTKEY_LEN, MAX_OPACITY, MAX_RECENT_URLS, MAX_WINDOW_SIZE, MIN_OPACITY,
    MIN_WINDOW_SIZE,
};
use crate::text::{
    is_trimmed, lemma_trimmed_fixed, lemma_trimmed_window, same_text, trim, trimmed,
};
use vstd::prelude::*;
use vstd::string::StrSliceExecFns;

verus! {

/// `v` brought into `lo..=hi`.
pub open spec fn clamped(v: int, lo: int, hi: int) -> int {
    if v < lo {
        lo
    } else if v > hi {
        hi
    } else {
        v
    }
}

/// `v` brought into `lo..=hi`.
pub fn clamp(v: i32, lo: i32, hi: i32) -> (res: i32)
    requires
        lo <= hi,
    ensures
        res == clamped(v as int, lo as int, hi as int),
        lo <= res <= hi,
{
    if v < lo {
        lo
    } else if v > hi {
        hi
    } else {
        v
    }
}

/// A descriptor that is kept as it is: not empty, at most `MAX_HOTKEY_LEN`
/// characters, no white space at its ends.
pub open spec fn is_valid_hotkey(h: Seq<char>) -> bool {
    0 < h.len() <= MAX_HOTKEY_LEN && is_trimmed(h)
}

/// `value` trimmed if that is a descriptor of 1 to `MAX_HOTKEY_LEN`
/// characters, else `fallback`.
pub open spec fn sanitize_hotkey_spec(value: Seq<char>, fallback: Seq<char>) -> Seq<char> {
    let t = trimmed(value);
    if t.len() == 0 || t.len() > MAX_HOTKEY_LEN {
        fallback
    } else {
        t
    }
}

/// `value` trimmed if that is a descriptor of 1 to `MAX_HOTKEY_LEN`
/// characters, else `fallback` unchanged.
pub fn sanitize_hotkey(value: &str, fallback: &str) -> (res: String)
    ensures
        res@ == sanitize_hotkey_spec(value@, fallback@),
        res@ != fallback@ ==> is_valid_hotkey(res@),
        is_valid_hotkey(value@) ==> res@ == value@,
{
    proof {
        lemma_trimmed_window(value@);
        if is_valid_hotkey(value@) {
            lemma_trimmed_fixed(value@);
        }
    }
    let t = trim(value);
    if t.is_empty() || t.unicode_len() > MAX_HOTKEY_LEN {
        fallback.to_owned()
    } else {
        t.to_owned()
    }
}

/// Size, opacity and monitor brought within their limits; the rest as it was.
pub open spec fn sanitize_window(w: WindowConfig) -> WindowConfig {
    WindowConfig {
        width: clamped(w.width as int, MIN_WINDOW_SIZE as int, MAX_WINDOW_SIZE as int) as i32,
        height: clamped(w.height as int, MIN_WINDOW_SIZE as int, MAX_WINDOW_SIZE as int) as i32,
        opacity: clamped(w.opacity as int, MIN_OPACITY as int, MAX_OPACITY as int) as i32,
        monitor: if w.monitor < 0 {
            0
        } else {
            w.monitor
        },
        ..w
    }
}

/// The home page: its canonical form, else that of the fallback, else the
/// fallback as it is written.
pub open spec fn sanitize_home(home: Seq<char>) -> Seq<char> {
    match normalize_spec(home) {
        Ok(u) => u,
        Err(_) => match normalize_spec(default_home_text()) {
            Ok(u) => u,
            Err(_) => default_home_text(),
        },
    }
}

/// The page to restore: its canonical form, or nothing where it has none.
pub open spec fn sanitize_last(last: Option<Seq<char>>) -> Option<Seq<char>> {
    match last {
        Some(u) => match normalize_spec(u) {
            Ok(n) => Some(n),
            Err(_) => None,
        },
        None => None,
    }
}

/// The canonical forms of the entries that have one, in their order.
pub open spec fn normalized_entries(raw: Seq<Seq<char>>) -> Seq<Seq<char>>
    decreases raw.len(),
{
    if raw.len() == 0 {
        Seq::empty()
    } else {
        let init = normalized_entries(raw.drop_last());
        match normalize_spec(raw.last()) {
            Ok(u) => init.push(u),
            Err(_) => init,
        }
    }
}

/// `s` without repetitions: of equal entries the first one stays.
pub open spec fn distinct<A>(s: Seq<A>) -> Seq<A>
    decreases s.len(),
{
    if s.len() == 0 {
        Seq::empty()
    } else {
        let init = distinct(s.drop_last());
        if init.contains(s.last()) {
            init
        } else {
            init.push(s.last())
        }
    }
}

/// The first `n` entries of `s`, or all of them where there are fewer.
pub open spec fn first_n<A>(s: Seq<A>, n: int) -> Seq<A> {
    if s.len() <= n {
        s
    } else {
        s.subrange(0, n)
    }
}

/// The recent pages: canonical forms, invalid entries dropped, repetitions
/// dropped, cut to `MAX_RECENT_URLS`.
pub open spec fn sanitize_recent(raw: Option<Seq<Seq<char>>>) -> Seq<Seq<char>> {
    match raw {
        Some(r) => first_n(distinct(normalized_entries(r)), MAX_RECENT_URLS as int),
        None => Seq::empty(),
    }
}

/// Each descriptor sanitized against its own documented default.
pub open spec fn sanitize_hotkeys(h: HotkeyConfigView) -> HotkeyConfigView {
    let d = HotkeyConfigView::initial();
    HotkeyConfigView {
        toggle_on_top: sanitize_hotkey_spec(h.toggle_on_top, d.toggle_on_top),
        toggle_locked: sanitize_hotkey_spec(h.toggle_locked, d.toggle_locked),
        opacity_up: sanitize_hotkey_spec(h.opacity_up, d.opacity_up),
        opacity_down: sanitize_hotkey_spec(h.opacity_down, d.opacity_down),
        toggle_visibility: sanitize_hotkey_spec(h.toggle_visibility, d.toggle_visibility),
    }
}

/// The record that `sanitize_config` makes of `c`.
pub open spec fn sanitize_spec(c: AppConfigView) -> AppConfigView {
    AppConfigView {
        window: sanitize_window(c.window),
        home_url: sanitize_home(c.home_url),
        last_url: sanitize_last(c.last_url),
        recent_urls: Some(sanitize_recent(c.recent_urls)),
        hotkeys: sanitize_hotkeys(c.hotkeys),
        ..c
    }
}

impl HotkeyConfigView {
    /// Every descriptor is one that sanitizing keeps.
    pub open spec fn is_valid(self) -> bool {
        &&& is_valid_hotkey(self.toggle_on_top)
        &&& is_valid_hotkey(self.toggle_locked)
        &&& is_valid_hotkey(self.opacity_up)
        &&& is_valid_hotkey(self.opacity_down)
        &&& is_valid_hotkey(self.toggle_visibility)
    }
}

impl AppConfigView {
    /// The window is within its bounds, and the recent pages are at most
    /// `MAX_RECENT_URLS` with none twice.
    pub open spec fn within_limits(self) -> bool {
        &&& self.window.in_bounds()
        &&& self.recent_urls matches Some(r) && r.len() <= MAX_RECENT_URLS && r.no_duplicates()
    }

    /// Every address of the record satisfies `p`.
    pub open spec fn each_address(self, p: spec_fn(Seq<char>) -> bool) -> bool {
        &&& p(self.home_url)
        &&& self.last_url matches Some(u) ==> p(u)
        &&& self.recent_urls matches Some(r) ==> forall|i: int|
            0 <= i < r.len() ==> p(#[trigger] r[i])
    }

    /// Every address begins with `http://` or `https://`.
    pub open spec fn addresses_are_web(self) -> bool {
        self.each_address(|u: Seq<char>| is_web_address(u))
    }

    /// Sanitizing leaves every address as it is: the page to restore and
    /// the recent pages are settled, and the home page is what sanitizing
    /// makes of it.
    pub open spec fn addresses_settled(self) -> bool {
        &&& sanitize_home(self.home_url) == self.home_url
        &&& self.last_url matches Some(u) ==> is_settled(u)
        &&& self.recent_urls matches Some(r) ==> forall|i: int|
            0 <= i < r.len() ==> is_settled(#[trigger] r[i])
    }

    /// The invariant of a stored record: limits kept, web addresses only,
    /// valid hotkey descriptors.
    pub open spec fn is_sanitized(self) -> bool {
        &&& self.within_limits()
        &&& self.addresses_are_web()
        &&& self.hotkeys.is_valid()
    }
}

/// The documented default descriptors are valid themselves.
pub proof fn lemma_default_hotkeys_valid()
    ensures
        HotkeyConfigView::initial().is_valid(),
{
    reveal_strlit("Alt+Shift+T");
    reveal_strlit("Alt+Shift+D");
    reveal_strlit("Alt+Shift+Up");
    reveal_strlit("Alt+Shift+Down");
    reveal_strlit("Alt+Shift+H");
}

/// A fresh configuration keeps the invariant of a stored record, and its
/// window is not locked.
pub proof fn lemma_initial_is_sanitized()
    ensures
        AppConfigView::initial().is_sanitized(),
        !AppConfigView::initial().window.locked,
{
    lemma_default_hotkeys_valid();
    reveal_strlit("https://www.google.com");
    reveal_strlit("https://");
    assert(default_home_text().subrange(0, 8) =~= "https://"@);
}

/// Sanitizing a descriptor against a valid fallback gives a valid descriptor.
pub proof fn lemma_sanitize_hotkey_valid(value: Seq<char>, fallback: Seq<char>)
    requires
        is_valid_hotkey(fallback),
    ensures
        is_valid_hotkey(sanitize_hotkey_spec(value, fallback)),
{
    lemma_trimmed_window(value);
}

/// A valid descriptor is kept as it is, whatever the fallback.
pub proof fn lemma_valid_hotkey_kept(value: Seq<char>, fallback: Seq<char>)
    requires
        is_valid_hotkey(value),
    ensures
        sanitize_hotkey_spec(value, fallback) == value,
{
    lemma_trimmed_fixed(value);
}

/// `distinct` holds nothing twice, holds what `s` holds, and is no longer.
pub proof fn lemma_distinct<A>(s: Seq<A>)
    ensures
        distinct(s).no_duplicates(),
        distinct(s).len() <= s.len(),
        forall|x: A| distinct(s).contains(x) <==> s.contains(x),
    decreases s.len(),
{
    if s.len() > 0 {
        let init = s.drop_last();
        lemma_distinct(init);
        let d = distinct(init);
        let out = distinct(s);
        assert forall|x: A| s.contains(x) implies out.contains(x) by {
            let i = choose|i: int| 0 <= i < s.len() && s[i] == x;
            if i < s.len() - 1 {
                assert(init[i] == x);
                assert(init.contains(x));
                assert(d.contains(x));
                let j = choose|j: int| 0 <= j < d.len() && d[j] == x;
                assert(out[j] == x);
            } else if d.contains(x) {
                let j = choose|j: int| 0 <= j < d.len() && d[j] == x;
                assert(out[j] == x);
            } else {
                assert(out[d.len() as int] == x);
            }
        }
        assert forall|x: A| out.contains(x) implies s.contains(x) by {
            let j = choose|j: int| 0 <= j < out.len() && out[j] == x;
            if j < d.len() {
                assert(d[j] == x);
                assert(d.contains(x));
                assert(init.contains(x));
                let i = choose|i: int| 0 <= i < init.len() && init[i] == x;
                assert(s[i] == x);
            } else {
                assert(s[s.len() - 1] == x);
            }
        }
    }
}

/// A sequence that holds nothing twice is its own `distinct`.
pub proof fn lemma_distinct_fixed<A>(s: Seq<A>)
    requires
        s.no_duplicates(),
    ensures
        distinct(s) == s,
    decreases s.len(),
{
    if s.len() > 0 {
        let init = s.drop_last();
        lemma_distinct_fixed(init);
        if init.contains(s.last()) {
            let i = choose|i: int| 0 <= i < init.len() && init[i] == s.last();
            assert(s[i] == s[s.len() - 1]);
        }
        assert(init.push(s.last()) =~= s);
    }
}

/// Settled entries are their own canonical forms.
pub proof fn lemma_normalized_entries_fixed(r: Seq<Seq<char>>)
    requires
        forall|i: int| 0 <= i < r.len() ==> is_settled(#[trigger] r[i]),
    ensures
        normalized_entries(r) == r,
    decreases r.len(),
{
    if r.len() > 0 {
        let init = r.drop_last();
        assert forall|i: int| 0 <= i < init.len() implies is_settled(#[trigger] init[i]) by {
            assert(init[i] == r[i]);
        }
        lemma_normalized_entries_fixed(init);
        assert(is_settled(r[r.len() - 1]));
        assert(init.push(r.last()) =~= r);
    } else {
        assert(r =~= Seq::empty());
    }
}

/// What the entries before `i` give, in terms of `distinct` and
/// `normalized_entries`, grows by at most the canonical form of entry `i`.
pub proof fn lemma_recent_step(r: Seq<Seq<char>>, i: int)
    requires
        0 <= i < r.len(),
    ensures
        distinct(normalized_entries(r.subrange(0, i + 1))) == (match normalize_spec(r[i]) {
            Ok(u) => if distinct(normalized_entries(r.subrange(0, i))).contains(u) {
                distinct(normalized_entries(r.subrange(0, i)))
            } else {
                distinct(normalized_entries(r.subrange(0, i))).push(u)
            },
            Err(_) => distinct(normalized_entries(r.subrange(0, i))),
        }),
{
    let next = r.subrange(0, i + 1);
    assert(next.drop_last() =~= r.subrange(0, i));
    assert(next.last() == r[i]);
    if let Ok(u) = normalize_spec(r[i]) {
        let entries = normalized_entries(r.subrange(0, i));
        assert(entries.push(u).drop_last() =~= entries);
    }
}

/// What the entries before `i` give is the beginning of what all entries give.
pub proof fn lemma_recent_prefix(r: Seq<Seq<char>>, i: int)
    requires
        0 <= i <= r.len(),
    ensures
        distinct(normalized_entries(r.subrange(0, i))).is_prefix_of(
            distinct(normalized_entries(r)),
        ),
    decreases r.len() - i,
{
    if i == r.len() {
        assert(r.subrange(0, i) =~= r);
    } else {
        lemma_recent_step(r, i);
        lemma_recent_prefix(r, i + 1);
        let here = distinct(normalized_entries(r.subrange(0, i)));
        let next = distinct(normalized_entries(r.subrange(0, i + 1)));
        let all = distinct(normalized_entries(r));
        assert(here.is_prefix_of(next));
        assert(here =~= all.subrange(0, here.len() as int));
    }
}

/// Whatever the record, sanitizing brings it within its limits and makes
/// every hotkey descriptor valid.
pub proof fn lemma_sanitize_within_limits(c: AppConfigView)
    ensures
        sanitize_spec(c).within_limits(),
        sanitize_spec(c).hotkeys.is_valid(),
{
    let d = HotkeyConfigView::initial();
    lemma_default_hotkeys_valid();
    lemma_sanitize_hotkey_valid(c.hotkeys.toggle_on_top, d.toggle_on_top);
    lemma_sanitize_hotkey_valid(c.hotkeys.toggle_locked, d.toggle_locked);
    lemma_sanitize_hotkey_valid(c.hotkeys.opacity_up, d.opacity_up);
    lemma_sanitize_hotkey_valid(c.hotkeys.opacity_down, d.opacity_down);
    lemma_sanitize_hotkey_valid(c.hotkeys.toggle_visibility, d.toggle_visibility);
    if let Some(r) = c.recent_urls {
        lemma_distinct(normalized_entries(r));
    }
}

/// A record within its limits, with valid descriptors and settled addresses,
/// is left as it is by sanitizing.
pub proof fn lemma_settled_record_is_fixed(c: AppConfigView)
    requires
        c.within_limits(),
        c.hotkeys.is_valid(),
        c.addresses_settled(),
    ensures
        sanitize_spec(c) == c,
{
    let d = HotkeyConfigView::initial();
    lemma_valid_hotkey_kept(c.hotkeys.toggle_on_top, d.toggle_on_top);
    lemma_valid_hotkey_kept(c.hotkeys.toggle_locked, d.toggle_locked);
    lemma_valid_hotkey_kept(c.hotkeys.opacity_up, d.opacity_up);
    lemma_valid_hotkey_kept(c.hotkeys.opacity_down, d.opacity_down);
    lemma_valid_hotkey_kept(c.hotkeys.toggle_visibility, d.toggle_visibility);
    let r = c.recent_urls->0;
    lemma_normalized_entries_fixed(r);
    lemma_distinct_fixed(r);
    assert(sanitize_window(c.window) == c.window);
}

/// There are no more canonical forms than entries; where there are as many,
/// every entry has one, and it stands in the entry's place.
pub proof fn lemma_normalized_entries_len(r: Seq<Seq<char>>)
    ensures
        normalized_entries(r).len() <= r.len(),
        normalized_entries(r).len() == r.len() ==> forall|i: int|
            0 <= i < r.len() ==> normalize_spec(#[trigger] r[i]) == Ok::<Seq<char>, InvalidUrl>(
                normalized_entries(r)[i],
            ),
    decreases r.len(),
{
    if r.len() > 0 {
        let init = r.drop_last();
        lemma_normalized_entries_len(init);
        if normalized_entries(r).len() == r.len() {
            assert forall|i: int| 0 <= i < r.len() implies normalize_spec(#[trigger] r[i]) == Ok::<
                Seq<char>,
                InvalidUrl,
            >(normalized_entries(r)[i]) by {
                if i < r.len() - 1 {
                    assert(init[i] == r[i]);
                    assert(normalized_entries(r)[i] == normalized_entries(init)[i]);
                }
            }
        }
    }
}

/// `distinct` that is as long as its argument is its argument.
pub proof fn lemma_distinct_full<A>(s: Seq<A>)
    requires
        distinct(s).len() == s.len(),
    ensures
        distinct(s) == s,
    decreases s.len(),
{
    if s.len() > 0 {
        let init = s.drop_last();
        lemma_distinct(init);
        lemma_distinct_full(init);
        assert(init.push(s.last()) =~= s);
    } else {
        assert(s =~= Seq::empty());
    }
}

/// A record within its limits that sanitizing leaves as it is has settled
/// addresses.
pub proof fn lemma_fixed_record_is_settled(c: AppConfigView)
    requires
        c.within_limits(),
        sanitize_spec(c) == c,
    ensures
        c.addresses_settled(),
{
    let r = c.recent_urls->0;
    let entries = normalized_entries(r);
    lemma_normalized_entries_len(r);
    lemma_distinct(entries);
    assert(sanitize_recent(c.recent_urls) == r);
    assert(distinct(entries).len() == entries.len());
    lemma_distinct_full(entries);
    assert(entries == r);
}

/// Sanitizing twice is sanitizing once exactly for the records whose
/// sanitized addresses are settled. It is not so for every record: an address
/// whose canonical form outgrew `MAX_URL_LEN` bytes is refused the second
/// time.
pub proof fn lemma_sanitize_idempotent(c: AppConfigView)
    ensures
        sanitize_spec(sanitize_spec(c)) == sanitize_spec(c) <==> sanitize_spec(
            c,
        ).addresses_settled(),
{
    lemma_sanitize_within_limits(c);
    if sanitize_spec(c).addresses_settled() {
        lemma_settled_record_is_fixed(sanitize_spec(c));
    }
    if sanitize_spec(sanitize_spec(c)) == sanitize_spec(c) {
        lemma_fixed_record_is_settled(sanitize_spec(c));
    }
}

/// Whether `v` holds the text of `s`.
fn holds_text(v: &Vec<String>, s: &String) -> (res: bool)
    ensures
        res == v.deep_view().contains(s@),
{
    let mut i: usize = 0;
    while i < v.len()
        invariant
            i <= v.len(),
            forall|j: int| 0 <= j < i ==> v.deep_view()[j] != s@,
        decreases v.len() - i,
    {
        if v[i] == *s {
            assert(v.deep_view()[i as int] == s@);
            return true;
        }
        i = i + 1;
    }
    false
}

/// The canonical forms of `raw`'s entries, each once, the first
/// `MAX_RECENT_URLS` of them.
fn sanitize_recent_urls(raw: Option<Vec<String>>) -> (res: Vec<String>)
    ensures
        res.deep_view() == sanitize_recent(raw.deep_view()),
        res.len() <= MAX_RECENT_URLS,
        res.deep_view().no_duplicates(),
        forall|j: int| 0 <= j < res.len() ==> is_web_address(#[trigger] res.deep_view()[j]),
{
    let mut out: Vec<String> = Vec::new();
    let entries = match raw {
        Some(v) => v,
        None => {
            assert(out.deep_view() =~= Seq::<Seq<char>>::empty());
            return out;
        },
    };
    let ghost r = entries.deep_view();
    let mut i: usize = 0;
    assert(r.subrange(0, 0) =~= Seq::<Seq<char>>::empty());
    assert(out.deep_view() =~= Seq::<Seq<char>>::empty());
    while i < entries.len() && out.len() < MAX_RECENT_URLS
        invariant
            r == entries.deep_view(),
            i <= entries.len(),
            out.len() <= MAX_RECENT_URLS,
            out.deep_view() == distinct(normalized_entries(r.subrange(0, i as int))),
            forall|j: int| 0 <= j < out.len() ==> is_web_address(#[trigger] out.deep_view()[j]),
        decreases entries.len() - i,
    {
        proof {
            lemma_recent_step(r, i as int);
        }
        let ghost before = out.deep_view();
        match normalize_url(entries[i].as_str()) {
            Ok(u) => {
                if !holds_text(&out, &u) {
                    let ghost text = u@;
                    out.push(u);
                    assert(out.deep_view() =~= before.push(text));
                }
            },
            Err(_) => {},
        }
        i = i + 1;
    }
    proof {
        lemma_recent_prefix(r, i as int);
        lemma_distinct(normalized_entries(r.subrange(0, i as int)));
        let all = distinct(normalized_entries(r));
        if i < entries.len() {
            assert(out.deep_view() =~= all.subrange(0, MAX_RECENT_URLS as int));
        } else {
            assert(r.subrange(0, i as int) =~= r);
        }
        assert(raw.deep_view() == Some(r));
    }
    out
}

/// The canonical form of `home`, else that of the fallback, else the fallback
/// as written.
fn sanitize_home_url(home: &str) -> (res: String)
    ensures
        res@ == sanitize_home(home@),
        is_web_address(res@),
{
    match normalize_url(home) {
        Ok(u) => u,
        Err(_) => {
            let fallback = default_home_url();
            match normalize_url(fallback.as_str()) {
                Ok(u) => u,
                Err(_) => {
                    proof {
                        reveal_strlit("https://www.google.com");
                        reveal_strlit("https://");
                        assert(fallback@.subrange(0, 8) =~= "https://"@);
                    }
                    fallback
                },
            }
        },
    }
}

/// The canonical form of the page to restore, or nothing where it has none.
fn sanitize_last_url(last: Option<String>) -> (res: Option<String>)
    ensures
        res.deep_view() == sanitize_last(last.deep_view()),
        res matches Some(u) ==> is_web_address(u@),
{
    match last {
        Some(u) => match normalize_url(u.as_str()) {
            Ok(n) => Some(n),
            Err(_) => None,
        },
        None => None,
    }
}

/// Each descriptor sanitized against its own documented default.
fn sanitize_hotkey_config(hotkeys: &HotkeyConfig) -> (res: HotkeyConfig)
    ensures
        res@ == sanitize_hotkeys(hotkeys@),
        res@.is_valid(),
{
    proof {
        let d = HotkeyConfigView::initial();
        lemma_default_hotkeys_valid();
        lemma_sanitize_hotkey_valid(hotkeys@.toggle_on_top, d.toggle_on_top);
        lemma_sanitize_hotkey_valid(hotkeys@.toggle_locked, d.toggle_locked);
        lemma_sanitize_hotkey_valid(hotkeys@.opacity_up, d.opacity_up);
        lemma_sanitize_hotkey_valid(hotkeys@.opacity_down, d.opacity_down);
        lemma_sanitize_hotkey_valid(hotkeys@.toggle_visibility, d.toggle_visibility);
    }
    HotkeyConfig {
        toggle_on_top: sanitize_hotkey(hotkeys.toggle_on_top.as_str(), "Alt+Shift+T"),
        toggle_locked: sanitize_hotkey(hotkeys.toggle_locked.as_str(), "Alt+Shift+D"),
        opacity_up: sanitize_hotkey(hotkeys.opacity_up.as_str(), "Alt+Shift+Up"),
        opacity_down: sanitize_hotkey(hotkeys.opacity_down.as_str(), "Alt+Shift+Down"),
        toggle_visibility: sanitize_hotkey(hotkeys.toggle_visibility.as_str(), "Alt+Shift+H"),
    }
}

/// Brings `config` within its invariant: clamps width and height to
/// `MIN_WINDOW_SIZE..=MAX_WINDOW_SIZE`, opacity to `MIN_OPACITY..=MAX_OPACITY`
/// and the monitor to 0 or more; normalizes the home page, falling back to the
/// default; normalizes the page to restore or drops it; normalizes the recent
/// pages, dropping invalid and repeated ones and all after the first
/// `MAX_RECENT_URLS`; sanitizes each hotkey descriptor against its default.
///
/// Doing so again changes nothing exactly when the addresses that came out
/// are settled, which `addresses_settled` tells: an address that grew past
/// `MAX_URL_LEN` bytes when it was serialized is refused the second time.
pub fn sanitize_config(config: AppConfig) -> (res: AppConfig)
    ensures
        res@ == sanitize_spec(config@),
        res@.is_sanitized(),
        sanitize_spec(res@) == res@ <==> res@.addresses_settled(),
{
    let AppConfig {
        window,
        last_url,
        recent_urls,
        audio_device_id,
        launch_at_startup,
        hotkeys,
        home_url,
        first_run,
    } = config;
    let window = WindowConfig {
        x: window.x,
        y: window.y,
        width: clamp(window.width, MIN_WINDOW_SIZE, MAX_WINDOW_SIZE),
        height: clamp(window.height, MIN_WINDOW_SIZE, MAX_WINDOW_SIZE),
        monitor: if window.monitor < 0 {
            0
        } else {
            window.monitor
        },
        always_on_top: window.always_on_top,
        opacity: clamp(window.opacity, MIN_OPACITY, MAX_OPACITY),
        locked: window.locked,
    };
    let home_url = sanitize_home_url(home_url.as_str());
    let last_url = sanitize_last_url(last_url);
    let recent = sanitize_recent_urls(recent_urls);
    let hotkeys = sanitize_hotkey_config(&hotkeys);
    let res = AppConfig {
        window,
        last_url,
        recent_urls: Some(recent),
        audio_device_id,
        launch_at_startup,
        hotkeys,
        home_url,
        first_run,
    };
    proof {
        assert(res@.recent_urls == Some(sanitize_recent(config@.recent_urls)));
        assert(res@.within_limits());
        lemma_sanitize_idempotent(config@);
    }
    res
}

/// Whether sanitizing leaves every address of `config` as it is.
#[verifier::loop_isolation(false)]
pub fn addresses_settled(config: &AppConfig) -> (res: bool)
    ensures
        res == config@.addresses_settled(),
{
    let home = sanitize_home_url(config.home_url.as_str());
    if !same_text(home.as_str(), config.home_url.as_str()) {
        return false;
    }
    match &config.last_url {
        Some(last) => {
            if !is_settled_url(last.as_str()) {
                return false;
            }
        },
        None => {},
    }
    match &config.recent_urls {
        Some(recent) => {
            let mut i: usize = 0;
            while i < recent.len()
                invariant
                    i <= recent.len(),
                    forall|j: int| 0 <= j < i ==> is_settled(#[trigger] recent.deep_view()[j]),
                decreases recent.len() - i,
            {
                if !is_settled_url(recent[i].as_str()) {
                    proof {
                        let r = config@.recent_urls->0;
                        assert(r == recent.deep_view());
                        assert(!is_settled(r[i as int]));
                    }
                    return false;
                }
                i = i + 1;
            }
            true
        },
        None => true,
    }
}

} // verus!
