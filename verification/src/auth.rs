//! What the `auth` commands show and how they read the operator's choices.
//!
//! Prompting, printing and the profile file stay with the caller.

use vstd::prelude::*;
use crate::profiles::{ProfileView, ProviderProfile, profile_views};
use crate::text::{
    decimal, decimal_chars, from_chars, is_blank, push_all, push_str, to_chars, trim, trim_chars,
    trimmed,
};

verus! {

broadcast use vstd::string::group_string_axioms;

/// Why an `auth` command refused the operator's input.
#[derive(Debug, Clone, Copy, PartialEq, Eq, Structural)]
pub enum AuthError {
    ValueRequired,
    NotANumber,
    NoSuchNumber,
    NoProfiles,
}

impl AuthError {
    /// The error's text.
    pub fn message(&self) -> (result: &'static str)
        ensures
            result@ == match self {
                AuthError::ValueRequired => "a value is required"@,
                AuthError::NotANumber => "choose a provider by its displayed number"@,
                AuthError::NoSuchNumber => "choose a displayed provider number"@,
                AuthError::NoProfiles => "no provider profiles exist; run `roven auth set` first"@,
            },
    {
        match self {
            AuthError::ValueRequired => "a value is required",
            AuthError::NotANumber => "choose a provider by its displayed number",
            AuthError::NoSuchNumber => "choose a displayed provider number",
            AuthError::NoProfiles => "no provider profiles exist; run `roven auth set` first",
        }
    }
}

/// A prompted value: the answer trimmed, which must not be empty.
pub fn required_value(answer: &str) -> (result: Result<String, AuthError>)
    ensures
        match result {
            Ok(v) => v@ == trim(answer@) && v@.len() > 0,
            Err(e) => e == AuthError::ValueRequired && trim(answer@).len() == 0,
        },
{
    let value = trimmed(answer);
    if value.as_str().is_empty() {
        Err(AuthError::ValueRequired)
    } else {
        Ok(value)
    }
}

// ----------------------------------------------------------------------------
// Listings
// ----------------------------------------------------------------------------

/// One line of `auth list`: `*` marks the default profile.
pub open spec fn list_line(p: ProfileView, default_id: Option<Seq<char>>) -> Seq<char> {
    (if default_id == Some(p.id) {
        "*"@
    } else {
        " "@
    }) + " "@ + p.name + "\t"@ + p.endpoint + "\t"@ + p.model + "\n"@
}

/// The text of `auth list`.
pub open spec fn list_text(profiles: Seq<ProfileView>, default_id: Option<Seq<char>>) -> Seq<char>
    decreases profiles.len(),
{
    if profiles.len() == 0 {
        Seq::<char>::empty()
    } else {
        list_text(profiles.drop_last(), default_id) + list_line(profiles.last(), default_id)
    }
}

/// The view of an optional borrowed string.
pub open spec fn opt_str(s: Option<&str>) -> Option<Seq<char>> {
    match s {
        Some(x) => Some(x@),
        None => None,
    }
}

/// Lists the profiles, one per line, marking the default one; no secret is
/// shown.
pub fn format_profile_list(profiles: &[ProviderProfile], default_id: Option<&str>) -> (result:
    String)
    ensures
        result@ == list_text(profile_views(profiles@), opt_str(default_id)),
{
    let mut out: Vec<char> = Vec::new();
    let mut i: usize = 0;
    while i < profiles.len()
        invariant
            i <= profiles.len(),
            out@ == list_text(profile_views(profiles@.take(i as int)), opt_str(default_id)),
        decreases profiles.len() - i,
    {
        let p = &profiles[i];
        assert(profile_views(profiles@.take(i + 1)).drop_last() =~= profile_views(
            profiles@.take(i as int),
        ));
        assert(profile_views(profiles@.take(i + 1)).last() == p@);
        let is_default = match default_id {
            Some(d) => {
                let a = to_chars(d);
                let b = to_chars(p.id.as_str());
                crate::text::chars_equal(&a, &b)
            },
            None => false,
        };
        if is_default {
            push_str(&mut out, "*");
        } else {
            push_str(&mut out, " ");
        }
        push_str(&mut out, " ");
        push_str(&mut out, p.name.as_str());
        push_str(&mut out, "\t");
        push_str(&mut out, p.endpoint.as_str());
        push_str(&mut out, "\t");
        push_str(&mut out, p.model.as_str());
        push_str(&mut out, "\n");
        i = i + 1;
    }
    assert(profiles@.take(i as int) =~= profiles@);
    from_chars(out.as_slice())
}

/// One line of a numbered choice: `n. name\tendpoint\tmodel`.
pub open spec fn numbered_line(n: nat, p: ProfileView) -> Seq<char> {
    decimal(n) + ". "@ + p.name + "\t"@ + p.endpoint + "\t"@ + p.model + "\n"@
}

/// The numbered choices, counted from one.
pub open spec fn numbered_text(profiles: Seq<ProfileView>) -> Seq<char>
    decreases profiles.len(),
{
    if profiles.len() == 0 {
        Seq::<char>::empty()
    } else {
        numbered_text(profiles.drop_last()) + numbered_line(profiles.len(), profiles.last())
    }
}

/// Numbers the profiles from one for the operator to choose from.
pub fn numbered_profiles(profiles: &[ProviderProfile]) -> (result: String)
    requires
        profiles.len() < u64::MAX,
    ensures
        result@ == numbered_text(profile_views(profiles@)),
{
    let mut out: Vec<char> = Vec::new();
    let mut i: usize = 0;
    while i < profiles.len()
        invariant
            i <= profiles.len(),
            profiles.len() < u64::MAX,
            out@ == numbered_text(profile_views(profiles@.take(i as int))),
        decreases profiles.len() - i,
    {
        let p = &profiles[i];
        assert(profile_views(profiles@.take(i + 1)).drop_last() =~= profile_views(
            profiles@.take(i as int),
        ));
        assert(profile_views(profiles@.take(i + 1)).last() == p@);
        assert(profile_views(profiles@.take(i + 1)).len() == i + 1);
        let n = decimal_chars((i as u64) + 1);
        push_all(&mut out, &n);
        push_str(&mut out, ". ");
        push_str(&mut out, p.name.as_str());
        push_str(&mut out, "\t");
        push_str(&mut out, p.endpoint.as_str());
        push_str(&mut out, "\t");
        push_str(&mut out, p.model.as_str());
        push_str(&mut out, "\n");
        i = i + 1;
    }
    assert(profiles@.take(i as int) =~= profiles@);
    from_chars(out.as_slice())
}

/// The line `auth status` prints.
pub open spec fn status_text(default_profile: Option<ProfileView>) -> Seq<char> {
    match default_profile {
        Some(p) => "default\t"@ + p.name + "\t"@ + p.endpoint + "\t"@ + p.model,
        None => "default\tmissing"@,
    }
}

/// The line `auth status` prints for the default profile, if any.
pub fn status_line(default_profile: &Option<ProviderProfile>) -> (result: String)
    ensures
        result@ == status_text(match default_profile {
            Some(p) => Some(p@),
            None => None,
        }),
{
    let mut out: Vec<char> = Vec::new();
    match default_profile {
        Some(p) => {
            push_str(&mut out, "default\t");
            push_str(&mut out, p.name.as_str());
            push_str(&mut out, "\t");
            push_str(&mut out, p.endpoint.as_str());
            push_str(&mut out, "\t");
            push_str(&mut out, p.model.as_str());
        },
        None => {
            push_str(&mut out, "default\tmissing");
        },
    }
    from_chars(out.as_slice())
}

// ----------------------------------------------------------------------------
// Choosing a profile by number
// ----------------------------------------------------------------------------

/// Whether `c` is an ASCII digit.
pub open spec fn is_digit(c: char) -> bool {
    '0' <= c && c <= '9'
}

/// The value of a string of ASCII digits.
pub open spec fn digits_value(s: Seq<char>) -> nat
    decreases s.len(),
{
    if s.len() == 0 {
        0
    } else {
        digits_value(s.drop_last()) * 10 + ((s.last() as int) - ('0' as int)) as nat
    }
}

/// Whether every character of `d` is an ASCII digit.
pub open spec fn all_digits(d: Seq<char>) -> bool {
    forall|i: int| 0 <= i < d.len() ==> is_digit(#[trigger] d[i])
}

/// `s` without one leading `+`.
pub open spec fn unsigned_digits(s: Seq<char>) -> Seq<char> {
    if s.len() > 0 && s[0] == '+' {
        s.drop_first()
    } else {
        s
    }
}

/// std's `usize::from_str`: an optional `+` and at least one ASCII digit,
/// whose value must fit in `usize`.
pub open spec fn parse_usize(s: Seq<char>) -> Option<nat> {
    let digits = unsigned_digits(s);
    if digits.len() == 0 || !all_digits(digits) || digits_value(digits) > usize::MAX {
        None
    } else {
        Some(digits_value(digits))
    }
}

proof fn lemma_digits_value_monotone(s: Seq<char>, i: int)
    requires
        0 <= i <= s.len(),
        forall|k: int| 0 <= k < s.len() ==> is_digit(#[trigger] s[k]),
    ensures
        digits_value(s.take(i)) <= digits_value(s),
    decreases s.len() - i,
{
    if i < s.len() {
        lemma_digits_value_monotone(s, i + 1);
        assert(s.take(i + 1).drop_last() =~= s.take(i));
    } else {
        assert(s.take(i) =~= s);
    }
}

/// The value of an ASCII digit.
fn digit_value(c: char) -> (result: u8)
    requires
        is_digit(c),
    ensures
        result as int == (c as int) - ('0' as int),
{
    match c {
        '0' => 0,
        '1' => 1,
        '2' => 2,
        '3' => 3,
        '4' => 4,
        '5' => 5,
        '6' => 6,
        '7' => 7,
        '8' => 8,
        _ => 9,
    }
}

/// When the digits up to `i` already exceed `usize`, the whole string is
/// no `usize`.
proof fn lemma_too_large(s: Seq<char>, start: int, i: int, digits: Seq<char>)
    requires
        0 <= start <= i < s.len(),
        digits == s.skip(start),
        forall|k: int| start <= k <= i ==> is_digit(#[trigger] s[k]),
        digits_value(s.subrange(start, i + 1)) > usize::MAX,
    ensures
        !(digits.len() > 0 && all_digits(digits) && digits_value(digits) <= usize::MAX),
{
    if digits.len() > 0 && all_digits(digits) {
        lemma_digits_value_monotone(digits, i - start + 1);
        assert(digits.take(i - start + 1) =~= s.subrange(start, i + 1));
    }
}

/// Parses a decimal `usize` as std does.
pub fn parse_number(s: &Vec<char>) -> (result: Option<usize>)
    ensures
        match result {
            Some(n) => parse_usize(s@) == Some(n as nat),
            None => parse_usize(s@) is None,
        },
{
    let start: usize = if s.len() > 0 && s[0] == '+' {
        1
    } else {
        0
    };
    let ghost digits = unsigned_digits(s@);
    assert(digits =~= s@.skip(start as int));
    if start >= s.len() {
        return None;
    }
    let mut value: usize = 0;
    let mut i: usize = start;
    while i < s.len()
        invariant
            start <= i <= s.len(),
            start < s.len(),
            digits =~= s@.skip(start as int),
            digits == unsigned_digits(s@),
            forall|k: int| start <= k < i ==> is_digit(#[trigger] s@[k]),
            value as nat == digits_value(s@.subrange(start as int, i as int)),
        decreases s.len() - i,
    {
        let c = s[i];
        assert(s@.subrange(start as int, i + 1).drop_last() =~= s@.subrange(start as int, i as int));
        if !('0' <= c && c <= '9') {
            assert(!is_digit(digits[i - start]));
            return None;
        }
        let d = digit_value(c) as usize;
        assert(s@.subrange(start as int, i + 1).last() == c);
        assert(digits_value(s@.subrange(start as int, i + 1)) == digits_value(
            s@.subrange(start as int, i as int),
        ) * 10 + d);
        match value.checked_mul(10) {
            None => {
                proof {
                    lemma_too_large(s@, start as int, i as int, digits);
                }
                return None;
            },
            Some(m) => match m.checked_add(d) {
                None => {
                    proof {
                        lemma_too_large(s@, start as int, i as int, digits);
                    }
                    return None;
                },
                Some(v) => {
                    value = v;
                },
            },
        }
        i = i + 1;
    }
    assert(s@.subrange(start as int, i as int) =~= digits);
    Some(value)
}

/// Picks the profile whose displayed number the operator typed: the
/// answer, trimmed, must be a number from `1` to the number of profiles;
/// profile `n` is the `n`-th of the list.
pub fn select_profile<'a>(profiles: &'a [ProviderProfile], selection: &str) -> (result: Result<
    &'a ProviderProfile,
    AuthError,
>)
    ensures
        match parse_usize(trim(selection@)) {
            None => result == Err::<&ProviderProfile, AuthError>(AuthError::NotANumber),
            Some(n) => if 1 <= n <= profiles@.len() {
                result matches Ok(p) && *p == profiles@[n - 1]
            } else {
                result == Err::<&ProviderProfile, AuthError>(AuthError::NoSuchNumber)
            },
        },
{
    let chars = to_chars(selection);
    let t = trim_chars(&chars);
    match parse_number(&t) {
        None => Err(AuthError::NotANumber),
        Some(n) => {
            if 1 <= n && n <= profiles.len() {
                Ok(&profiles[n - 1])
            } else {
                Err(AuthError::NoSuchNumber)
            }
        },
    }
}

// ----------------------------------------------------------------------------
// Removal
// ----------------------------------------------------------------------------

/// The profiles other than those with `id`, in order.
pub open spec fn others(profiles: Seq<ProfileView>, id: Seq<char>) -> Seq<ProfileView>
    decreases profiles.len(),
{
    if profiles.len() == 0 {
        Seq::empty()
    } else {
        let prev = others(profiles.drop_last(), id);
        if profiles.last().id == id {
            prev
        } else {
            prev.push(profiles.last())
        }
    }
}

/// `i` is the first profile named `name`.
pub open spec fn first_named(profiles: Seq<ProfileView>, name: Seq<char>, i: int) -> bool {
    0 <= i < profiles.len() && profiles[i].name == name && forall|j: int| 0 <= j < i ==> profiles[j].name != name
}

/// What `auth remove` does: the profile to remove and, when it was the
/// default and others remain, the profiles offered as the new default.
pub struct RemovalPlan {
    pub profile: ProviderProfile,
    pub replacement_choices: Vec<ProviderProfile>,
}

/// Plans the removal of the first profile named `name`: none when no
/// profile has that name.
pub fn plan_removal(profiles: &[ProviderProfile], default_id: Option<&str>, name: &str) -> (result: Option<RemovalPlan>)
    ensures
        match result {
            None => forall|j: int| 0 <= j < profiles@.len() ==> (#[trigger] profiles@[j])@.name != name@,
            Some(plan) => exists|i: int| {
                &&& first_named(profile_views(profiles@), name@, i)
                &&& plan.profile@ == profiles@[i]@
                &&& profile_views(plan.replacement_choices@) == if opt_str(default_id) == Some(profiles@[i]@.id) {
                    others(profile_views(profiles@), profiles@[i]@.id)
                } else {
                    Seq::empty()
                }
            },
        },
{
    let wanted = to_chars(name);
    let mut i: usize = 0;
    while i < profiles.len()
        invariant
            i <= profiles@.len(),
            wanted@ == name@,
            forall|j: int| 0 <= j < i ==> (#[trigger] profiles@[j])@.name != name@,
        decreases profiles@.len() - i,
    {
        let candidate = to_chars(profiles[i].name.as_str());
        if crate::text::chars_equal(&candidate, &wanted) {
            let profile = profiles[i].duplicate();
            let is_default = match default_id {
                Some(d) => {
                    let dc = to_chars(d);
                    let ic = to_chars(profiles[i].id.as_str());
                    crate::text::chars_equal(&dc, &ic)
                },
                None => false,
            };
            let mut choices: Vec<ProviderProfile> = Vec::new();
            if is_default {
                let id_chars = to_chars(profiles[i].id.as_str());
                let mut k: usize = 0;
                while k < profiles.len()
                    invariant
                        k <= profiles@.len(),
                        i < profiles@.len(),
                        id_chars@ == profiles@[i as int]@.id,
                        profile_views(choices@) =~= others(profile_views(profiles@).take(k as int), profiles@[i as int]@.id),
                    decreases profiles@.len() - k,
                {
                    let ghost before = choices@;
                    proof {
                        assert(profile_views(profiles@).take(k + 1).drop_last() =~= profile_views(profiles@).take(k as int));
                        assert(profile_views(profiles@).take(k + 1).last() == profiles@[k as int]@);
                    }
                    let other = to_chars(profiles[k].id.as_str());
                    if !crate::text::chars_equal(&other, &id_chars) {
                        choices.push(profiles[k].duplicate());
                        proof {
                            assert(profile_views(choices@) =~= profile_views(before).push(profiles@[k as int]@));
                        }
                    }
                    k = k + 1;
                }
                proof {
                    assert(profile_views(profiles@).take(k as int) =~= profile_views(profiles@));
                }
            }
            proof {
                assert(first_named(profile_views(profiles@), name@, i as int));
            }
            return Some(RemovalPlan { profile, replacement_choices: choices });
        }
        i = i + 1;
    }
    None
}

/// The error for `auth remove` with a name no profile has.
pub fn missing_profile_message(name: &str) -> (result: String)
    ensures
        result@ == "provider profile `"@ + name@ + "` does not exist"@,
{
    let mut out: Vec<char> = Vec::new();
    push_str(&mut out, "provider profile `");
    push_str(&mut out, name);
    push_str(&mut out, "` does not exist");
    from_chars(out.as_slice())
}

} // verus!
