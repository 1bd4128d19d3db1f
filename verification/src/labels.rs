//! How accounts are described on screen.

use vstd::prelude::*;

use crate::account::{Account, WarmRecord};
use crate::state::{AccountView, ViewModel};
use crate::text::{chars_of, is_space, is_white_space, join2, join4, opt_text};

verus! {

/// The capital form of a character, as Unicode has it.
pub uninterp spec fn upper(c: char) -> Seq<char>;

/// Calls `char::to_uppercase` and collects what it yields. The text depends on
/// the character alone: the capital of a Latin letter from `a` to `z`, and any
/// other ASCII character unchanged.
#[verifier::external_body]
fn uppercase(c: char) -> (text: String)
    ensures
        text@ == upper(c),
        'a' <= c <= 'z' ==> text@ == seq![(c as u32 - 32) as char],
        c <= '\u{7f}' && !('a' <= c <= 'z') ==> text@ == seq![c],
{
    c.to_uppercase().to_string()
}

/// A moment on the wall clock, counted in seconds from the beginning of 1970 on
/// that clock, written by chrono in the given pattern; nothing for a moment that
/// chrono does not know.
pub uninterp spec fn time_text(wall: i64, pattern: Seq<char>) -> Option<Seq<char>>;

/// Calls `chrono::DateTime::from_timestamp`, which knows no time zone but UTC,
/// and writes the result with `DateTime::format`. The text depends on both
/// arguments alone. The patterns are those that chrono is known to accept here.
#[verifier::external_body]
fn format_time(wall: i64, pattern: &str) -> (text: Option<String>)
    requires
        pattern@ == "%a %H:%M"@ || pattern@ == "%b %-d, %H:%M"@,
    ensures
        opt_text(text) == time_text(wall, pattern@),
{
    chrono::DateTime::from_timestamp(wall, 0).map(|time| time.format(pattern).to_string())
}

/// A character that begins a word.
pub open spec fn begins_word(s: Seq<char>, i: int) -> bool {
    !is_space(s[i]) && (i == 0 || is_space(s[i - 1]))
}

/// The characters that begin words among the first `n` ones.
pub open spec fn word_starts(s: Seq<char>, n: int) -> Seq<char>
    decreases n,
{
    if n <= 0 {
        Seq::empty()
    } else if begins_word(s, n - 1) {
        word_starts(s, n - 1).push(s[n - 1])
    } else {
        word_starts(s, n - 1)
    }
}

/// The capital forms of the first two of `starts`.
pub open spec fn first_two_capitals(starts: Seq<char>) -> Seq<char> {
    if starts.len() == 0 {
        Seq::empty()
    } else if starts.len() == 1 {
        upper(starts[0])
    } else {
        upper(starts[0]) + upper(starts[1])
    }
}

proof fn lemma_word_starts_grow(s: Seq<char>, n: int, m: int)
    requires
        0 <= n <= m <= s.len(),
    ensures
        word_starts(s, n).len() <= word_starts(s, m).len(),
        word_starts(s, m).take(word_starts(s, n).len() as int) == word_starts(s, n),
    decreases m - n,
{
    if n < m {
        lemma_word_starts_grow(s, n, m - 1);
        let starts = word_starts(s, n);
        assert(word_starts(s, m).take(starts.len() as int) =~= starts);
    } else {
        assert(word_starts(s, m).take(word_starts(s, n).len() as int) =~= word_starts(s, n));
    }
}

/// The initials of the first two words of a label.
pub fn initials(label: &str) -> (text: String)
    ensures
        text@ == first_two_capitals(word_starts(label@, label@.len() as int)),
{
    let chars = chars_of(label);
    let mut text = String::new();
    let mut found: usize = 0;
    let mut i: usize = 0;
    assert(text@ =~= first_two_capitals(word_starts(label@, 0)));
    while i < chars.len() && found < 2
        invariant
            i <= chars.len(),
            chars@ == label@,
            found <= 2,
            found == word_starts(label@, i as int).len(),
            text@ == first_two_capitals(word_starts(label@, i as int)),
        decreases chars.len() - i,
    {
        if !is_white_space(chars[i]) && (i == 0 || is_white_space(chars[i - 1])) {
            let capital = uppercase(chars[i]);
            text.append(capital.as_str());
            found = found + 1;
        }
        assert(text@ =~= first_two_capitals(word_starts(label@, i + 1)));
        i = i + 1;
    }
    proof {
        let seen = word_starts(label@, i as int);
        let all = word_starts(label@, label@.len() as int);
        lemma_word_starts_grow(label@, i as int, label@.len() as int);
        if i < chars.len() {
            assert(all.take(2)[0] == seen[0]);
            assert(all.take(2)[1] == seen[1]);
        }
    }
    text
}

/// How one character of the name of a plan is shown: an underscore as a space,
/// the first character of a word as a capital.
pub open spec fn plan_piece(s: Seq<char>, i: int) -> Seq<char> {
    if s[i] == '_' {
        seq![' ']
    } else if i == 0 || s[i - 1] == '_' {
        upper(s[i])
    } else {
        seq![s[i]]
    }
}

/// The first `n` characters of the name of a plan as they are shown.
pub open spec fn plan_words(s: Seq<char>, n: int) -> Seq<char>
    decreases n,
{
    if n <= 0 {
        Seq::empty()
    } else {
        plan_words(s, n - 1) + plan_piece(s, n - 1)
    }
}

/// The name of a plan in words.
pub fn plan_label(plan: &str) -> (text: String)
    ensures
        text@ == plan_words(plan@, plan@.len() as int),
{
    let chars = chars_of(plan);
    let mut text = String::new();
    let mut i: usize = 0;
    while i < chars.len()
        invariant
            i <= chars.len(),
            chars@ == plan@,
            text@ == plan_words(plan@, i as int),
        decreases chars.len() - i,
    {
        let ghost before = text@;
        if chars[i] == '_' {
            text.push(' ');
        } else if i == 0 || chars[i - 1] == '_' {
            let capital = uppercase(chars[i]);
            text.append(capital.as_str());
        } else {
            text.push(chars[i]);
        }
        assert(text@ =~= before + plan_piece(plan@, i as int));
        i = i + 1;
    }
    text
}

/// Who an account belongs to.
pub fn identity_text(account: &Account) -> (text: String)
    ensures
        text@ == match account@.email {
            Some(email) => email,
            None => "ChatGPT account"@,
        },
{
    match &account.email {
        Some(email) => email.clone(),
        None => "ChatGPT account".to_owned(),
    }
}

/// The plan of an account in words.
pub fn plan_text(account: &Account) -> (text: String)
    ensures
        text@ == match account@.plan {
            Some(plan) => plan_words(plan, plan.len() as int),
            None => "Unknown plan"@,
        },
{
    match &account.plan {
        Some(plan) => plan_label(plan.as_str()),
        None => "Unknown plan".to_owned(),
    }
}

/// A moment on the wall clock in a pattern, if there is one.
pub open spec fn wall_text(wall: Option<i64>, pattern: Seq<char>) -> Option<Seq<char>> {
    match wall {
        Some(wall) => time_text(wall, pattern),
        None => None,
    }
}

/// A slot by its day and time on the wall clock.
pub fn format_slot(wall: Option<i64>) -> (text: String)
    ensures
        text@ == match wall_text(wall, "%a %H:%M"@) {
            Some(text) => text,
            None => "Unknown"@,
        },
{
    let text = match wall {
        Some(wall) => format_time(wall, "%a %H:%M"),
        None => None,
    };
    match text {
        Some(text) => text,
        None => "Unknown".to_owned(),
    }
}

/// The last warmup in words, given the moment it was sent in words.
pub open spec fn activity(record: Option<WarmRecord>, when: Option<Seq<char>>) -> Seq<char> {
    match record {
        Some(record) => {
            let when = match when {
                Some(when) => when,
                None => "unknown time"@,
            };
            "Last "@ + record.reason.words() + if record.success {
                " · "@
            } else {
                " failed · "@
            } + when
        },
        None => "No warmup sent yet"@,
    }
}

/// Describes the last warmup, given the moment it was sent in words.
pub fn activity_text(record: &Option<WarmRecord>, when: Option<String>) -> (text: String)
    ensures
        text@ == activity(*record, opt_text(when)),
{
    match record {
        Some(record) => {
            let when = match when {
                Some(when) => when,
                None => "unknown time".to_owned(),
            };
            let reason = record.reason.to_string();
            if record.success {
                join4("Last ", reason.as_str(), " · ", when.as_str())
            } else {
                join4("Last ", reason.as_str(), " failed · ", when.as_str())
            }
        },
        None => "No warmup sent yet".to_owned(),
    }
}

/// Describes the last warmup of an account, given the moment it was sent on the
/// wall clock.
pub fn last_activity(account: &Account, wall: Option<i64>) -> (text: String)
    ensures
        text@ == activity(account@.ledger.last_warmup, wall_text(wall, "%b %-d, %H:%M"@)),
{
    let when = match wall {
        Some(wall) => format_time(wall, "%b %-d, %H:%M"),
        None => None,
    };
    activity_text(&account.ledger.last_warmup, when)
}

/// What an account is doing or waiting for, given its next slot in words.
pub open spec fn status(view: ViewModel, next: Option<Seq<char>>) -> Seq<char> {
    match view.busy {
        Some(action) => action,
        None => if !view.account.connected {
            "Sign in required"@
        } else if !view.account.enabled {
            "Automatic warmups paused"@
        } else {
            match next {
                Some(slot) => "Next scheduled "@ + slot,
                None => "Watching for reset windows"@,
            }
        },
    }
}

/// Describes what an account is doing or waiting for, given its next slot in words.
pub fn account_status(view: &AccountView, next: &Option<String>) -> (text: String)
    ensures
        text@ == status(view@, opt_text(*next)),
{
    if let Some(action) = &view.busy {
        return action.clone();
    }
    if !view.account.connected {
        return "Sign in required".to_owned();
    }
    if !view.account.enabled {
        return "Automatic warmups paused".to_owned();
    }
    match next {
        Some(slot) => join2("Next scheduled ", slot.as_str()),
        None => "Watching for reset windows".to_owned(),
    }
}

/// The next slot of all accounts in words.
pub fn next_warmup_text(slot: &Option<String>) -> (text: String)
    ensures
        text@ == match opt_text(*slot) {
            Some(slot) => slot,
            None => "No times set"@,
        },
{
    match slot {
        Some(slot) => slot.clone(),
        None => "No times set".to_owned(),
    }
}

/// How the bar of a limit is drawn when `remaining` percent are left.
pub open spec fn bar_class(remaining: int) -> Seq<char> {
    if remaining <= 10 {
        "progress-fill critical"@
    } else if remaining <= 30 {
        "progress-fill warning"@
    } else {
        "progress-fill"@
    }
}

/// How the bar of a limit is drawn when `remaining` percent are left.
pub fn progress_class(remaining: i32) -> (class: &'static str)
    ensures
        class@ == bar_class(remaining as int),
{
    if remaining <= 10 {
        "progress-fill critical"
    } else if remaining <= 30 {
        "progress-fill warning"
    } else {
        "progress-fill"
    }
}

/// A bar is critical down from ten percent and a warning down from thirty.
pub proof fn law_bars_warn_in_time(remaining: int)
    ensures
        remaining <= 10 ==> bar_class(remaining) == "progress-fill critical"@,
        10 < remaining <= 30 ==> bar_class(remaining) == "progress-fill warning"@,
        remaining > 30 ==> bar_class(remaining) == "progress-fill"@,
{
}

/// What runs on an account is shown before anything else; then that nobody is signed
/// in; then that automatic warmups are off; then the next slot.
pub proof fn law_status_tells_what_matters_most(
    view: ViewModel,
    action: Seq<char>,
    next: Option<Seq<char>>,
)
    ensures
        view.busy == Some(action) ==> status(view, next) == action,
        view.busy is None && !view.account.connected ==> status(view, next)
            == "Sign in required"@,
        view.busy is None && view.account.connected && !view.account.enabled ==> status(view, next)
            == "Automatic warmups paused"@,
        view.busy is None && view.account.connected && view.account.enabled ==> {
            &&& next matches Some(slot) ==> status(view, next) == "Next scheduled "@ + slot
            &&& next is None ==> status(view, next) == "Watching for reset windows"@
        },
{
}

/// The last warmup is named with its reason and its moment, and a failed one as such.
pub proof fn law_activity_tells_what_was_sent(record: WarmRecord, when: Seq<char>)
    ensures
        activity(None, Some(when)) == "No warmup sent yet"@,
        record.success ==> activity(Some(record), Some(when)) == "Last "@ + record.reason.words()
            + " · "@ + when,
        !record.success ==> activity(Some(record), Some(when)) == "Last "@ + record.reason.words()
            + " failed · "@ + when,
        activity(Some(record), None) == activity(Some(record), Some("unknown time"@)),
{
}

/// The n-th character and those before it begin no word but the ones found.
pub proof fn law_words_are_found(s: Seq<char>, n: int)
    requires
        0 <= n < s.len(),
    ensures
        word_starts(s, 0).len() == 0,
        is_space(s[n]) ==> word_starts(s, n + 1) == word_starts(s, n),
        !is_space(s[n]) && (n == 0 || is_space(s[n - 1])) ==> word_starts(s, n + 1) == word_starts(
            s,
            n,
        ).push(s[n]),
        !is_space(s[n]) && n > 0 && !is_space(s[n - 1]) ==> word_starts(s, n + 1) == word_starts(
            s,
            n,
        ),
{
}

/// Two words give two initials, one gives one, and more give no more than two.
pub proof fn law_initials_are_of_two_words(starts: Seq<char>, more: char)
    ensures
        starts.len() == 0 ==> first_two_capitals(starts) == Seq::<char>::empty(),
        starts.len() == 1 ==> first_two_capitals(starts) == upper(starts[0]),
        starts.len() == 2 ==> first_two_capitals(starts) == upper(starts[0]) + upper(starts[1]),
        starts.len() >= 2 ==> first_two_capitals(starts.push(more)) == first_two_capitals(starts),
{
}

/// The name of a plan is shown character by character: underscores as spaces, and
/// what begins it or follows an underscore as a capital.
pub proof fn law_plans_are_shown_in_words(s: Seq<char>, n: int)
    requires
        0 <= n < s.len(),
    ensures
        plan_words(s, 0).len() == 0,
        s[n] == '_' ==> plan_words(s, n + 1) == plan_words(s, n).push(' '),
        s[n] != '_' && n > 0 && s[n - 1] != '_' ==> plan_words(s, n + 1) == plan_words(s, n).push(
            s[n],
        ),
        s[n] != '_' && (n == 0 || s[n - 1] == '_') ==> plan_words(s, n + 1) == plan_words(s, n)
            + upper(s[n]),
{
    assert(plan_words(s, n) + seq![' '] =~= plan_words(s, n).push(' '));
    assert(plan_words(s, n) + seq![s[n]] =~= plan_words(s, n).push(s[n]));
}

} // verus!
