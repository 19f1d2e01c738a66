//! The updater's argument vectors and its output-line classifier.
//!
//! [`update_args_for`] picks the fixed argument vector the external updater
//! is launched with, by update kind. [`parse_line`] is the stateless
//! line-to-event classifier: it turns one line of the updater's textual
//! output into at most one structured progress event. A line that matches
//! none of the recognized shapes produces no event — that is a deliberate
//! no-op, not an error.
//!
//! The recognized shapes, checked in this order (their leading characters
//! make them mutually exclusive):
//! - a line beginning `Success!` — the run completed;
//! - `[` + four characters + `] ` + text — a self-update status, the text
//!   captured;
//! - `ERROR!` + text + `(` + reason + `)` at end of line — a failure, the
//!   last parenthesized run captured as the reason;
//! - ` Update state (0x` + lowercase hex + `) ` + name + `, progress: ` +
//!   digits `.` digits + ` (` + digits ` / ` digits + `)` at end of line —
//!   a progress report. The hex run is the state id, the name is captured
//!   trimmed of surrounding spaces, the decimal fraction is kept as raw
//!   text, and the two digit runs are the current and total counts.

use vstd::prelude::*;
use vstd::string::{StringExecFns, StrSliceExecFns};

verus! {

/// Which external-updater invocation a session performs.
#[derive(Debug, Clone, Copy, PartialEq, Eq)]
pub enum UpdateType {
    /// The runtime's own self-update: log in anonymously and quit.
    Steam,
    /// A game content update, optionally validating the installed files.
    Game { validate: bool },
}

/// What can go wrong starting the updater process.
#[derive(Debug)]
pub enum SteamCMDError {
    /// The process could not be spawned; the message says why. Fatal to
    /// this update attempt only.
    SpawnError(String),
}

/// The argument vector for each update kind.
pub open spec fn spec_update_args(t: UpdateType) -> Seq<Seq<char>> {
    match t {
        UpdateType::Steam => seq!["+login"@, "anonymous"@, "+quit"@],
        UpdateType::Game { validate } => if validate {
            seq![
                "+force_install_dir"@,
                "/home/steam/palserver"@,
                "+login"@,
                "anonymous"@,
                "+app_update"@,
                "2394010"@,
                "validate"@,
                "+quit"@,
            ]
        } else {
            seq![
                "+force_install_dir"@,
                "/home/steam/palserver"@,
                "+login"@,
                "anonymous"@,
                "+app_update"@,
                "2394010"@,
                "+quit"@,
            ]
        },
    }
}

/// The fixed argument vector the updater is launched with for this kind of
/// update; immutable once chosen for a session.
pub fn update_args_for(update_type: UpdateType) -> (args: Vec<&'static str>)
    ensures
        args@.map_values(|a: &str| a@) == spec_update_args(update_type),
{
    let mut args: Vec<&'static str> = Vec::new();
    match update_type {
        UpdateType::Steam => {
            args.push("+login");
            args.push("anonymous");
            args.push("+quit");
        },
        UpdateType::Game { validate } => {
            args.push("+force_install_dir");
            args.push("/home/steam/palserver");
            args.push("+login");
            args.push("anonymous");
            args.push("+app_update");
            args.push("2394010");
            if validate {
                args.push("validate");
            }
            args.push("+quit");
        },
    }
    proof {
        assert(args@.map_values(|a: &str| a@) =~= spec_update_args(update_type));
    }
    args
}

/// One structured progress event, produced by classifying one output line.
#[derive(Debug, PartialEq)]
pub enum UpdateProgressEvent {
    /// The updater reported on its own self-update.
    SelfUpdateStatus { text: String },
    /// A download/install progress report.
    Progress { state_id: u32, state_name: String, progress: String, current: u64, total: u64 },
    /// The run completed.
    Completed,
    /// The run failed; `reason` is the updater's parenthesized cause.
    Failed { reason: String },
}

/// Model of a progress event, over character sequences.
pub enum UpdateEventModel {
    SelfUpdateStatus { text: Seq<char> },
    Progress {
        state_id: u32,
        state_name: Seq<char>,
        progress: Seq<char>,
        current: u64,
        total: u64,
    },
    Completed,
    Failed { reason: Seq<char> },
}

impl View for UpdateProgressEvent {
    type V = UpdateEventModel;

    open spec fn view(&self) -> UpdateEventModel {
        match self {
            UpdateProgressEvent::SelfUpdateStatus { text } => UpdateEventModel::SelfUpdateStatus {
                text: text@,
            },
            UpdateProgressEvent::Progress { state_id, state_name, progress, current, total } => {
                UpdateEventModel::Progress {
                    state_id: *state_id,
                    state_name: state_name@,
                    progress: progress@,
                    current: *current,
                    total: *total,
                }
            },
            UpdateProgressEvent::Completed => UpdateEventModel::Completed,
            UpdateProgressEvent::Failed { reason } => UpdateEventModel::Failed { reason: reason@ },
        }
    }
}

/// A decimal digit.
pub open spec fn is_dec_digit(c: char) -> bool {
    48 <= c as u32 <= 57
}

/// A lowercase hexadecimal digit.
pub open spec fn is_hex_lower(c: char) -> bool {
    is_dec_digit(c) || (97 <= c as u32 <= 102)
}

/// A state-name character: an ASCII word character or a space.
pub open spec fn is_name_char(c: char) -> bool {
    is_dec_digit(c) || (65 <= c as u32 <= 90) || (97 <= c as u32 <= 122) || c as u32 == 95
        || c as u32 == 32
}

/// `p` occurs in `s` at position `i`.
pub open spec fn spec_starts_at(s: Seq<char>, i: int, p: Seq<char>) -> bool {
    0 <= i && i + p.len() <= s.len() && s.subrange(i, i + p.len() as int) == p
}

/// `s` begins with `p`.
pub open spec fn spec_starts_with(s: Seq<char>, p: Seq<char>) -> bool {
    spec_starts_at(s, 0, p)
}

/// Where the run of lowercase hex digits beginning at `i` ends.
pub open spec fn spec_hex_end(s: Seq<char>, i: int) -> int
    decreases s.len() - i,
{
    if i < 0 || i >= s.len() {
        i
    } else if is_hex_lower(s[i]) {
        spec_hex_end(s, i + 1)
    } else {
        i
    }
}

/// Where the run of decimal digits beginning at `i` ends.
pub open spec fn spec_dec_end(s: Seq<char>, i: int) -> int
    decreases s.len() - i,
{
    if i < 0 || i >= s.len() {
        i
    } else if is_dec_digit(s[i]) {
        spec_dec_end(s, i + 1)
    } else {
        i
    }
}

/// Where the run of name characters beginning at `i` ends.
pub open spec fn spec_name_end(s: Seq<char>, i: int) -> int
    decreases s.len() - i,
{
    if i < 0 || i >= s.len() {
        i
    } else if is_name_char(s[i]) {
        spec_name_end(s, i + 1)
    } else {
        i
    }
}

proof fn lemma_hex_end(s: Seq<char>, i: int)
    requires
        0 <= i <= s.len(),
    ensures
        i <= spec_hex_end(s, i) <= s.len(),
        forall|j: int| i <= j < spec_hex_end(s, i) ==> is_hex_lower(#[trigger] s[j]),
        spec_hex_end(s, i) < s.len() ==> !is_hex_lower(s[spec_hex_end(s, i)]),
    decreases s.len() - i,
{
    if i < s.len() && is_hex_lower(s[i]) {
        lemma_hex_end(s, i + 1);
    }
}

proof fn lemma_dec_end(s: Seq<char>, i: int)
    requires
        0 <= i <= s.len(),
    ensures
        i <= spec_dec_end(s, i) <= s.len(),
        forall|j: int| i <= j < spec_dec_end(s, i) ==> is_dec_digit(#[trigger] s[j]),
        spec_dec_end(s, i) < s.len() ==> !is_dec_digit(s[spec_dec_end(s, i)]),
    decreases s.len() - i,
{
    if i < s.len() && is_dec_digit(s[i]) {
        lemma_dec_end(s, i + 1);
    }
}

/// The value of a lowercase hex digit.
pub open spec fn spec_hex_digit_val(c: char) -> int {
    if 48 <= c as u32 <= 57 {
        c as u32 - 48
    } else {
        c as u32 - 87
    }
}

/// The value of a run of lowercase hex digits.
pub open spec fn spec_hex_val(s: Seq<char>) -> int
    decreases s.len(),
{
    if s.len() == 0 {
        0
    } else {
        spec_hex_val(s.drop_last()) * 16 + spec_hex_digit_val(s.last())
    }
}

/// The value of a run of decimal digits.
pub open spec fn spec_dec_val(s: Seq<char>) -> int
    decreases s.len(),
{
    if s.len() == 0 {
        0
    } else {
        spec_dec_val(s.drop_last()) * 10 + (s.last() as u32 - 48)
    }
}

proof fn lemma_hex_val_nonneg(s: Seq<char>)
    requires
        forall|j: int| 0 <= j < s.len() ==> is_hex_lower(#[trigger] s[j]),
    ensures
        0 <= spec_hex_val(s),
    decreases s.len(),
{
    if s.len() > 0 {
        lemma_hex_val_nonneg(s.drop_last());
    }
}

proof fn lemma_dec_val_nonneg(s: Seq<char>)
    requires
        forall|j: int| 0 <= j < s.len() ==> is_dec_digit(#[trigger] s[j]),
    ensures
        0 <= spec_dec_val(s),
    decreases s.len(),
{
    if s.len() > 0 {
        lemma_dec_val_nonneg(s.drop_last());
    }
}

/// A hex run's prefixes never exceed its whole value.
proof fn lemma_hex_val_prefix(s: Seq<char>, k: int)
    requires
        forall|j: int| 0 <= j < s.len() ==> is_hex_lower(#[trigger] s[j]),
        0 <= k <= s.len(),
    ensures
        spec_hex_val(s.subrange(0, k)) <= spec_hex_val(s),
    decreases s.len() - k,
{
    if k == s.len() {
        assert(s.subrange(0, k) =~= s);
    } else {
        lemma_hex_val_prefix(s, k + 1);
        let t = s.subrange(0, k + 1);
        assert(t.drop_last() =~= s.subrange(0, k));
        lemma_hex_val_nonneg(s.subrange(0, k));
    }
}

/// A decimal run's prefixes never exceed its whole value.
proof fn lemma_dec_val_prefix(s: Seq<char>, k: int)
    requires
        forall|j: int| 0 <= j < s.len() ==> is_dec_digit(#[trigger] s[j]),
        0 <= k <= s.len(),
    ensures
        spec_dec_val(s.subrange(0, k)) <= spec_dec_val(s),
    decreases s.len() - k,
{
    if k == s.len() {
        assert(s.subrange(0, k) =~= s);
    } else {
        lemma_dec_val_prefix(s, k + 1);
        let t = s.subrange(0, k + 1);
        assert(t.drop_last() =~= s.subrange(0, k));
        lemma_dec_val_nonneg(s.subrange(0, k));
    }
}

/// The largest index in `[7, hi]` holding `(`, or -1 if there is none.
pub open spec fn spec_last_open_paren(s: Seq<char>, hi: int) -> int
    decreases hi,
{
    if hi < 7 || hi >= s.len() {
        -1
    } else if s[hi] == '(' {
        hi
    } else {
        spec_last_open_paren(s, hi - 1)
    }
}

/// `s` without its leading and trailing spaces.
pub open spec fn spec_trim_spaces(s: Seq<char>) -> Seq<char>
    decreases s.len(),
{
    if s.len() > 0 && s[0] == ' ' {
        spec_trim_spaces(s.drop_first())
    } else if s.len() > 0 && s.last() == ' ' {
        spec_trim_spaces(s.drop_last())
    } else {
        s
    }
}

/// The boundaries of a progress line's captures. The hex run starts at 17
/// (after ` Update state (0x`), the name two characters after the hex run,
/// the raw fraction twelve characters after the name (past `, progress: `),
/// the current count two past the fraction (past ` (`), and the total three
/// past the current count (past ` / `), ending one before the line's end.
pub struct ProgressSpans {
    pub hex_end: int,
    pub name_end: int,
    pub frac_end: int,
    pub cur_end: int,
}

/// The captured state-id digits of a progress line.
pub open spec fn progress_hex(s: Seq<char>, sp: ProgressSpans) -> Seq<char> {
    s.subrange(17, sp.hex_end)
}

/// The captured state name of a progress line, untrimmed.
pub open spec fn progress_name(s: Seq<char>, sp: ProgressSpans) -> Seq<char> {
    s.subrange(sp.hex_end + 2, sp.name_end)
}

/// The captured raw fraction text of a progress line.
pub open spec fn progress_frac(s: Seq<char>, sp: ProgressSpans) -> Seq<char> {
    s.subrange(sp.name_end + 12, sp.frac_end)
}

/// The captured current-count digits of a progress line.
pub open spec fn progress_cur(s: Seq<char>, sp: ProgressSpans) -> Seq<char> {
    s.subrange(sp.frac_end + 2, sp.cur_end)
}

/// The captured total-count digits of a progress line.
pub open spec fn progress_tot(s: Seq<char>, sp: ProgressSpans) -> Seq<char> {
    s.subrange(sp.cur_end + 3, s.len() - 1)
}

/// Whether `s` has the progress shape, and where its captures lie.
pub open spec fn spec_match_progress(s: Seq<char>) -> Option<ProgressSpans> {
    if !spec_starts_with(s, " Update state (0x"@) {
        None
    } else {
        let he = spec_hex_end(s, 17);
        if he == 17 || he + 2 > s.len() || s[he] != ')' || s[he + 1] != ' ' {
            None
        } else {
            let ne = spec_name_end(s, he + 2);
            if ne == he + 2 || !spec_starts_at(s, ne, ", progress: "@) {
                None
            } else {
                let d1e = spec_dec_end(s, ne + 12);
                if d1e >= s.len() || s[d1e] != '.' {
                    None
                } else {
                    let fe = spec_dec_end(s, d1e + 1);
                    if !spec_starts_at(s, fe, " ("@) {
                        None
                    } else {
                        let ce = spec_dec_end(s, fe + 2);
                        if ce == fe + 2 || !spec_starts_at(s, ce, " / "@) {
                            None
                        } else {
                            let te = spec_dec_end(s, ce + 3);
                            if te == ce + 3 || te + 1 != s.len() || s[te] != ')' {
                                None
                            } else {
                                Some(
                                    ProgressSpans {
                                        hex_end: he,
                                        name_end: ne,
                                        frac_end: fe,
                                        cur_end: ce,
                                    },
                                )
                            }
                        }
                    }
                }
            }
        }
    }
}

/// Whether `s` has the self-update shape; the captured status text.
pub open spec fn spec_match_self_update(s: Seq<char>) -> Option<Seq<char>> {
    if s.len() >= 8 && s[0] == '[' && s[5] == ']' && s[6] == ' ' {
        Some(s.subrange(7, s.len() as int))
    } else {
        None
    }
}

/// Whether `s` has the error shape; the captured reason.
pub open spec fn spec_match_error(s: Seq<char>) -> Option<Seq<char>> {
    if s.len() >= 10 && spec_starts_with(s, "ERROR!"@) && s[s.len() - 1] == ')' {
        let i = spec_last_open_paren(s, s.len() - 3);
        if i >= 7 {
            Some(s.subrange(i + 1, s.len() - 1))
        } else {
            None
        }
    } else {
        None
    }
}

/// What one line classifies to, shapes checked in order: completion,
/// self-update, error, progress; anything else is no event.
pub open spec fn spec_classify(s: Seq<char>) -> Option<UpdateEventModel> {
    if spec_starts_with(s, "Success!"@) {
        Some(UpdateEventModel::Completed)
    } else {
        match spec_match_self_update(s) {
            Some(text) => Some(UpdateEventModel::SelfUpdateStatus { text }),
            None => match spec_match_error(s) {
                Some(reason) => Some(UpdateEventModel::Failed { reason }),
                None => match spec_match_progress(s) {
                    Some(sp) => Some(
                        UpdateEventModel::Progress {
                            state_id: spec_hex_val(progress_hex(s, sp)) as u32,
                            state_name: spec_trim_spaces(progress_name(s, sp)),
                            progress: progress_frac(s, sp),
                            current: spec_dec_val(progress_cur(s, sp)) as u64,
                            total: spec_dec_val(progress_tot(s, sp)) as u64,
                        },
                    ),
                    None => None,
                },
            },
        }
    }
}

/// Whether a progress line's numbers fit their 32- and 64-bit fields. True
/// of every line without the progress shape.
pub open spec fn spec_line_fits(s: Seq<char>) -> bool {
    match spec_match_progress(s) {
        Some(sp) => spec_hex_val(progress_hex(s, sp)) <= u32::MAX as int && spec_dec_val(
            progress_cur(s, sp),
        ) <= u64::MAX as int && spec_dec_val(progress_tot(s, sp)) <= u64::MAX as int,
        None => true,
    }
}

fn is_dec_char(c: char) -> (b: bool)
    ensures
        b == is_dec_digit(c),
{
    let u = c as u32;
    48 <= u && u <= 57
}

fn is_hex_char(c: char) -> (b: bool)
    ensures
        b == is_hex_lower(c),
{
    let u = c as u32;
    (48 <= u && u <= 57) || (97 <= u && u <= 102)
}

fn is_name_char_exec(c: char) -> (b: bool)
    ensures
        b == is_name_char(c),
{
    let u = c as u32;
    (48 <= u && u <= 57) || (65 <= u && u <= 90) || (97 <= u && u <= 122) || u == 95 || u == 32
}

/// Whether `p` occurs in `s` at position `i`.
fn starts_at(s: &str, i: usize, p: &str) -> (b: bool)
    requires
        i <= s@.len(),
    ensures
        b == spec_starts_at(s@, i as int, p@),
{
    let n = s.unicode_len();
    let m = p.unicode_len();
    if m > n - i {
        return false;
    }
    let mut j: usize = 0;
    while j < m
        invariant
            0 <= j <= m,
            i + m <= n,
            n == s@.len(),
            m == p@.len(),
            forall|k: int| 0 <= k < j ==> s@[i + k] == p@[k],
        decreases m - j,
    {
        if s.get_char(i + j) != p.get_char(j) {
            proof {
                assert(s@.subrange(i as int, i + p@.len() as int) != p@) by {
                    assert(s@.subrange(i as int, i + p@.len() as int)[j as int] == s@[i + j]);
                }
            }
            return false;
        }
        j += 1;
    }
    proof {
        assert(s@.subrange(i as int, i + p@.len() as int) =~= p@);
    }
    true
}

fn scan_hex(s: &str, from: usize) -> (e: usize)
    requires
        from <= s@.len(),
    ensures
        e as int == spec_hex_end(s@, from as int),
        from <= e <= s@.len(),
{
    let n = s.unicode_len();
    let mut i = from;
    while i < n && is_hex_char(s.get_char(i))
        invariant
            from <= i <= n,
            n == s@.len(),
            spec_hex_end(s@, from as int) == spec_hex_end(s@, i as int),
        decreases n - i,
    {
        i += 1;
    }
    i
}

fn scan_dec(s: &str, from: usize) -> (e: usize)
    requires
        from <= s@.len(),
    ensures
        e as int == spec_dec_end(s@, from as int),
        from <= e <= s@.len(),
{
    let n = s.unicode_len();
    let mut i = from;
    while i < n && is_dec_char(s.get_char(i))
        invariant
            from <= i <= n,
            n == s@.len(),
            spec_dec_end(s@, from as int) == spec_dec_end(s@, i as int),
        decreases n - i,
    {
        i += 1;
    }
    i
}

fn scan_name(s: &str, from: usize) -> (e: usize)
    requires
        from <= s@.len(),
    ensures
        e as int == spec_name_end(s@, from as int),
        from <= e <= s@.len(),
{
    let n = s.unicode_len();
    let mut i = from;
    while i < n && is_name_char_exec(s.get_char(i))
        invariant
            from <= i <= n,
            n == s@.len(),
            spec_name_end(s@, from as int) == spec_name_end(s@, i as int),
        decreases n - i,
    {
        i += 1;
    }
    i
}

/// The largest `(` position in `[7, hi]`, scanning down.
fn scan_last_paren(s: &str, hi: usize) -> (r: Option<usize>)
    requires
        7 <= hi < s@.len(),
    ensures
        r matches Some(i) ==> 7 <= i <= hi && i as int == spec_last_open_paren(s@, hi as int),
        r is None ==> spec_last_open_paren(s@, hi as int) == -1,
{
    let mut i = hi;
    loop
        invariant
            7 <= i <= hi < s@.len(),
            spec_last_open_paren(s@, hi as int) == spec_last_open_paren(s@, i as int),
        decreases i,
    {
        if s.get_char(i) == '(' {
            return Some(i);
        }
        if i == 7 {
            proof {
                assert(spec_last_open_paren(s@, 6) == -1);
            }
            return None;
        }
        i -= 1;
    }
}

/// The hex run's boundaries in `s`, when `s` has the progress shape.
fn match_progress(s: &str) -> (r: Option<(usize, usize, usize, usize)>)
    ensures
        (r is Some) == (spec_match_progress(s@) is Some),
        r matches Some(b) ==> (spec_match_progress(s@) matches Some(sp) && b.0 as int == sp.hex_end
            && b.1 as int == sp.name_end && b.2 as int == sp.frac_end && b.3 as int == sp.cur_end
            && 17 <= b.0 && b.0 + 2 <= b.1 && b.1 + 12 <= b.2 && b.2 + 2 <= b.3 && b.3 + 4
            <= s@.len()),
{
    let n = s.unicode_len();
    if !starts_at(s, 0, " Update state (0x") {
        return None;
    }
    proof {
        reveal_strlit(" Update state (0x");
    }
    let he = scan_hex(s, 17);
    if he == 17 || n - he < 2 || s.get_char(he) != ')' || s.get_char(he + 1) != ' ' {
        return None;
    }
    let ne = scan_name(s, he + 2);
    if ne == he + 2 || !starts_at(s, ne, ", progress: ") {
        return None;
    }
    proof {
        reveal_strlit(", progress: ");
    }
    let d1e = scan_dec(s, ne + 12);
    if d1e == n || s.get_char(d1e) != '.' {
        return None;
    }
    let fe = scan_dec(s, d1e + 1);
    if !starts_at(s, fe, " (") {
        return None;
    }
    proof {
        reveal_strlit(" (");
    }
    let ce = scan_dec(s, fe + 2);
    if ce == fe + 2 || !starts_at(s, ce, " / ") {
        return None;
    }
    proof {
        reveal_strlit(" / ");
    }
    let te = scan_dec(s, ce + 3);
    if te == ce + 3 || n - te != 1 || s.get_char(te) != ')' {
        return None;
    }
    Some((he, ne, fe, ce))
}

/// The value of the hex digits in `s[from..to]`, which must fit a `u32`.
fn hex_value_u32(s: &str, from: usize, to: usize) -> (v: u32)
    requires
        from <= to <= s@.len(),
        forall|j: int| from <= j < to ==> is_hex_lower(#[trigger] s@[j]),
        spec_hex_val(s@.subrange(from as int, to as int)) <= u32::MAX as int,
    ensures
        v as int == spec_hex_val(s@.subrange(from as int, to as int)),
{
    let ghost whole = s@.subrange(from as int, to as int);
    proof {
        assert(forall|j: int| 0 <= j < whole.len() ==> is_hex_lower(#[trigger] whole[j]));
    }
    let mut v: u32 = 0;
    let mut i = from;
    while i < to
        invariant
            from <= i <= to <= s@.len(),
            whole == s@.subrange(from as int, to as int),
            forall|j: int| from <= j < to ==> is_hex_lower(#[trigger] s@[j]),
            forall|j: int| 0 <= j < whole.len() ==> is_hex_lower(#[trigger] whole[j]),
            spec_hex_val(whole) <= u32::MAX as int,
            v as int == spec_hex_val(s@.subrange(from as int, i as int)),
        decreases to - i,
    {
        let c = s.get_char(i);
        let u = c as u32;
        let d: u32 = if u >= 97 {
            u - 87
        } else {
            u - 48
        };
        proof {
            let t = s@.subrange(from as int, i + 1);
            assert(t.drop_last() =~= s@.subrange(from as int, i as int));
            assert(t.last() == s@[i as int]);
            assert(t =~= whole.subrange(0, i + 1 - from));
            lemma_hex_val_prefix(whole, i + 1 - from);
            assert(whole.subrange(0, whole.len() as int) =~= whole);
            assert(spec_hex_val(t) == v * 16 + d);
            assert(v * 16 + d <= u32::MAX as int);
        }
        v = v * 16 + d;
        i += 1;
    }
    proof {
        assert(s@.subrange(from as int, i as int) =~= s@.subrange(from as int, to as int));
    }
    v
}

/// The value of the decimal digits in `s[from..to]`, which must fit a `u64`.
fn dec_value_u64(s: &str, from: usize, to: usize) -> (v: u64)
    requires
        from <= to <= s@.len(),
        forall|j: int| from <= j < to ==> is_dec_digit(#[trigger] s@[j]),
        spec_dec_val(s@.subrange(from as int, to as int)) <= u64::MAX as int,
    ensures
        v as int == spec_dec_val(s@.subrange(from as int, to as int)),
{
    let ghost whole = s@.subrange(from as int, to as int);
    proof {
        assert(forall|j: int| 0 <= j < whole.len() ==> is_dec_digit(#[trigger] whole[j]));
    }
    let mut v: u64 = 0;
    let mut i = from;
    while i < to
        invariant
            from <= i <= to <= s@.len(),
            whole == s@.subrange(from as int, to as int),
            forall|j: int| from <= j < to ==> is_dec_digit(#[trigger] s@[j]),
            forall|j: int| 0 <= j < whole.len() ==> is_dec_digit(#[trigger] whole[j]),
            spec_dec_val(whole) <= u64::MAX as int,
            v as int == spec_dec_val(s@.subrange(from as int, i as int)),
        decreases to - i,
    {
        let c = s.get_char(i);
        let d: u64 = ((c as u32) - 48) as u64;
        proof {
            let t = s@.subrange(from as int, i + 1);
            assert(t.drop_last() =~= s@.subrange(from as int, i as int));
            assert(t.last() == s@[i as int]);
            assert(t =~= whole.subrange(0, i + 1 - from));
            lemma_dec_val_prefix(whole, i + 1 - from);
            assert(whole.subrange(0, whole.len() as int) =~= whole);
            assert(spec_dec_val(t) == v * 10 + d);
            assert(v * 10 + d <= u64::MAX as int);
        }
        v = v * 10 + d;
        i += 1;
    }
    proof {
        assert(s@.subrange(from as int, i as int) =~= s@.subrange(from as int, to as int));
    }
    v
}

/// Whether the hex digits in `s[from..to]` fit a `u32`.
fn hex_fits_u32(s: &str, from: usize, to: usize) -> (b: bool)
    requires
        from <= to <= s@.len(),
        forall|j: int| from <= j < to ==> is_hex_lower(#[trigger] s@[j]),
    ensures
        b == (spec_hex_val(s@.subrange(from as int, to as int)) <= u32::MAX as int),
{
    let ghost whole = s@.subrange(from as int, to as int);
    proof {
        assert(forall|j: int| 0 <= j < whole.len() ==> is_hex_lower(#[trigger] whole[j]));
    }
    let mut v: u64 = 0;
    let mut i = from;
    while i < to
        invariant
            from <= i <= to <= s@.len(),
            forall|j: int| from <= j < to ==> is_hex_lower(#[trigger] s@[j]),
            whole == s@.subrange(from as int, to as int),
            forall|j: int| 0 <= j < whole.len() ==> is_hex_lower(#[trigger] whole[j]),
            v as int == spec_hex_val(s@.subrange(from as int, i as int)),
            v <= u32::MAX as u64,
        decreases to - i,
    {
        let c = s.get_char(i);
        let u = c as u32;
        let d: u64 = if u >= 97 {
            (u - 87) as u64
        } else {
            (u - 48) as u64
        };
        proof {
            let t = s@.subrange(from as int, i + 1);
            assert(t.drop_last() =~= s@.subrange(from as int, i as int));
            assert(t.last() == s@[i as int]);
            assert(t =~= whole.subrange(0, i + 1 - from));
        }
        let w: u64 = v * 16 + d;
        if w > u32::MAX as u64 {
            proof {
                lemma_hex_val_prefix(whole, i + 1 - from);
                assert(whole.subrange(0, whole.len() as int) =~= whole);
            }
            return false;
        }
        v = w;
        i += 1;
    }
    proof {
        assert(s@.subrange(from as int, i as int) =~= whole);
    }
    true
}

/// Whether the decimal digits in `s[from..to]` fit a `u64`.
fn dec_fits_u64(s: &str, from: usize, to: usize) -> (b: bool)
    requires
        from <= to <= s@.len(),
        forall|j: int| from <= j < to ==> is_dec_digit(#[trigger] s@[j]),
    ensures
        b == (spec_dec_val(s@.subrange(from as int, to as int)) <= u64::MAX as int),
{
    let ghost whole = s@.subrange(from as int, to as int);
    proof {
        assert(forall|j: int| 0 <= j < whole.len() ==> is_dec_digit(#[trigger] whole[j]));
    }
    let mut v: u128 = 0;
    let mut i = from;
    while i < to
        invariant
            from <= i <= to <= s@.len(),
            forall|j: int| from <= j < to ==> is_dec_digit(#[trigger] s@[j]),
            whole == s@.subrange(from as int, to as int),
            forall|j: int| 0 <= j < whole.len() ==> is_dec_digit(#[trigger] whole[j]),
            v as int == spec_dec_val(s@.subrange(from as int, i as int)),
            v <= u64::MAX as u128,
        decreases to - i,
    {
        let c = s.get_char(i);
        let d: u128 = ((c as u32) - 48) as u128;
        proof {
            let t = s@.subrange(from as int, i + 1);
            assert(t.drop_last() =~= s@.subrange(from as int, i as int));
            assert(t.last() == s@[i as int]);
            assert(t =~= whole.subrange(0, i + 1 - from));
        }
        let w: u128 = v * 10 + d;
        if w > u64::MAX as u128 {
            proof {
                lemma_dec_val_prefix(whole, i + 1 - from);
                assert(whole.subrange(0, whole.len() as int) =~= whole);
            }
            return false;
        }
        v = w;
        i += 1;
    }
    proof {
        assert(s@.subrange(from as int, i as int) =~= whole);
    }
    true
}

/// The trimmed bounds of `s[from..to]`: the same range less its leading
/// and trailing spaces.
fn trim_range(s: &str, from: usize, to: usize) -> (r: (usize, usize))
    requires
        from <= to <= s@.len(),
    ensures
        from <= r.0 <= r.1 <= to,
        s@.subrange(r.0 as int, r.1 as int) == spec_trim_spaces(
            s@.subrange(from as int, to as int),
        ),
{
    let mut a = from;
    while a < to && s.get_char(a) == ' '
        invariant
            from <= a <= to <= s@.len(),
            spec_trim_spaces(s@.subrange(from as int, to as int)) == spec_trim_spaces(
                s@.subrange(a as int, to as int),
            ),
        decreases to - a,
    {
        proof {
            let t = s@.subrange(a as int, to as int);
            assert(t.drop_first() =~= s@.subrange(a + 1, to as int));
        }
        a += 1;
    }
    let mut b = to;
    while b > a && s.get_char(b - 1) == ' '
        invariant
            from <= a <= b <= to <= s@.len(),
            a < to ==> s@[a as int] != ' ',
            spec_trim_spaces(s@.subrange(from as int, to as int)) == spec_trim_spaces(
                s@.subrange(a as int, b as int),
            ),
        decreases b,
    {
        proof {
            let t = s@.subrange(a as int, b as int);
            assert(t.drop_last() =~= s@.subrange(a as int, b - 1));
        }
        b -= 1;
    }
    proof {
        let t = s@.subrange(a as int, b as int);
        assert(spec_trim_spaces(t) == t);
    }
    (a, b)
}

/// Classifies one line of updater output into at most one progress event,
/// exactly as [`spec_classify`] states; a line that matches no shape
/// produces no event. The numbers of a progress-shaped line must fit their
/// fields ([`line_fits`] tests that).
pub fn parse_line(line: &str) -> (r: Option<UpdateProgressEvent>)
    requires
        spec_line_fits(line@),
    ensures
        (r is Some) == (spec_classify(line@) is Some),
        r matches Some(e) ==> (spec_classify(line@) matches Some(m) && e@ == m),
{
    let n = line.unicode_len();
    if starts_at(line, 0, "Success!") {
        return Some(UpdateProgressEvent::Completed);
    }
    if n >= 8 && line.get_char(0) == '[' && line.get_char(5) == ']' && line.get_char(6) == ' ' {
        let text = line.substring_char(7, n).to_owned();
        return Some(UpdateProgressEvent::SelfUpdateStatus { text });
    }
    if n >= 10 && starts_at(line, 0, "ERROR!") && line.get_char(n - 1) == ')' {
        match scan_last_paren(line, n - 3) {
            Some(i) => {
                let reason = line.substring_char(i + 1, n - 1).to_owned();
                return Some(UpdateProgressEvent::Failed { reason });
            },
            None => {},
        }
    }
    match match_progress(line) {
        Some((he, ne, fe, ce)) => {
            proof {
                lemma_hex_end(line@, 17);
                lemma_dec_end(line@, fe + 2);
                lemma_dec_end(line@, ce + 3);
            }
            let state_id = hex_value_u32(line, 17, he);
            let (a, b) = trim_range(line, he + 2, ne);
            let state_name = line.substring_char(a, b).to_owned();
            let progress = line.substring_char(ne + 12, fe).to_owned();
            let current = dec_value_u64(line, fe + 2, ce);
            let total = dec_value_u64(line, ce + 3, n - 1);
            Some(UpdateProgressEvent::Progress { state_id, state_name, progress, current, total })
        },
        None => None,
    }
}

/// Whether the line's numbers, if it has the progress shape, fit the 32-
/// and 64-bit fields of a progress event — the condition [`parse_line`]
/// asks of its input. A caller handling arbitrary updater output tests this
/// first.
pub fn line_fits(line: &str) -> (b: bool)
    ensures
        b == spec_line_fits(line@),
{
    match match_progress(line) {
        Some((he, ne, fe, ce)) => {
            let n = line.unicode_len();
            proof {
                lemma_hex_end(line@, 17);
                lemma_dec_end(line@, fe + 2);
                lemma_dec_end(line@, ce + 3);
            }
            hex_fits_u32(line, 17, he) && dec_fits_u64(line, fe + 2, ce) && dec_fits_u64(
                line,
                ce + 3,
                n - 1,
            )
        },
        None => true,
    }
}

} // verus!
