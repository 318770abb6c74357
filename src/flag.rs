use vstd::prelude::*;
use crate::crypto::{hex_of, sha512, sha512_of};
use crate::error::CoreError;
use crate::model::{JudgeConfig, JudgeType};
use crate::text::{dec, digit_char, is_digit, push_char, push_decimal};

verus! {

/// The placeholder in a flag template that the team-unique token replaces.
pub const PLACEHOLDER: &'static str = "[TOKEN]";

/// Number of digest characters that a token carries.
pub const MAC_LEN: usize = 32;

/// `p` occurs in `s` at position `i`.
pub open spec fn occurs_at(s: Seq<char>, p: Seq<char>, i: int) -> bool {
    0 <= i && i + p.len() <= s.len() && s.subrange(i, i + p.len()) == p
}

/// `i` is the first position at which the placeholder occurs in `t`.
pub open spec fn first_placeholder_at(t: Seq<char>, i: int) -> bool {
    &&& occurs_at(t, PLACEHOLDER@, i)
    &&& forall|j: int| 0 <= j < i ==> !occurs_at(t, PLACEHOLDER@, j)
}

/// Whether a template holds the placeholder.
pub open spec fn has_placeholder(t: Seq<char>) -> bool {
    exists|i: int| occurs_at(t, PLACEHOLDER@, i)
}

/// `t` with the placeholder at `i` replaced by `token`.
pub open spec fn substituted(t: Seq<char>, i: int, token: Seq<char>) -> Seq<char> {
    t.subrange(0, i) + token + t.subrange(i + PLACEHOLDER@.len(), t.len() as int)
}

/// The text whose digest authenticates a token.
pub open spec fn mac_input(secret: Seq<char>, team_id: u64, instance_id: u64) -> Seq<char> {
    secret + seq!['$'] + dec(team_id as nat) + seq!['$'] + dec(instance_id as nat)
}

/// The first characters of the digest of the team, the instance and a secret.
pub open spec fn mac_of(secret: Seq<char>, team_id: u64, instance_id: u64) -> Seq<char> {
    hex_of(sha512_of(mac_input(secret, team_id, instance_id))).take(MAC_LEN as int)
}

/// The token of a team's instance: team, dash, instance, dash, digest.
pub open spec fn token_of(team_id: u64, instance_id: u64, mac: Seq<char>) -> Seq<char> {
    dec(team_id as nat) + (seq!['-'] + (dec(instance_id as nat) + (seq!['-'] + mac)))
}

/// The flag provisioned from template `t` for a team's instance.
pub open spec fn flag_of(t: Seq<char>, secret: Seq<char>, team_id: u64, instance_id: u64) -> Seq<char> {
    let i = choose|i: int| first_placeholder_at(t, i);
    substituted(t, i, token_of(team_id, instance_id, mac_of(secret, team_id, instance_id)))
}

proof fn lemma_dec_digits(n: nat)
    ensures
        dec(n).len() >= 1,
        forall|k: int| 0 <= k < dec(n).len() ==> is_digit(#[trigger] dec(n)[k]),
    decreases n,
{
    if n >= 10 {
        lemma_dec_digits(n / 10);
        assert forall|k: int| 0 <= k < dec(n).len() implies is_digit(#[trigger] dec(n)[k]) by {
            if k < dec(n / 10).len() {
                assert(dec(n)[k] == dec(n / 10)[k]);
            }
        }
    }
}

proof fn lemma_dec_injective(a: nat, b: nat)
    requires
        dec(a) == dec(b),
    ensures
        a == b,
    decreases a,
{
    lemma_dec_digits(a / 10);
    lemma_dec_digits(b / 10);
    if a < 10 && b < 10 {
        assert(dec(a)[0] == digit_char(a));
        assert(dec(b)[0] == digit_char(b));
    } else if a < 10 {
        assert(dec(b).len() == dec(b / 10).len() + 1);
    } else if b < 10 {
        assert(dec(a).len() == dec(a / 10).len() + 1);
    } else {
        assert(dec(a).last() == digit_char(a % 10));
        assert(dec(b).last() == digit_char(b % 10));
        assert(dec(a).drop_last() =~= dec(a / 10));
        assert(dec(b).drop_last() =~= dec(b / 10));
        lemma_dec_injective(a / 10, b / 10);
    }
}

/// A numeral followed by a dash can be split off a text in one way only.
proof fn lemma_split_numeral(x1: nat, r1: Seq<char>, x2: nat, r2: Seq<char>)
    requires
        dec(x1) + (seq!['-'] + r1) == dec(x2) + (seq!['-'] + r2),
    ensures
        x1 == x2,
        r1 == r2,
{
    let s = dec(x1) + (seq!['-'] + r1);
    let l1 = dec(x1).len();
    let l2 = dec(x2).len();
    lemma_dec_digits(x1);
    lemma_dec_digits(x2);
    if l1 < l2 {
        assert(s[l1 as int] == '-');
        assert(s[l1 as int] == dec(x2)[l1 as int]);
    } else if l2 < l1 {
        assert(s[l2 as int] == '-');
        assert(s[l2 as int] == dec(x1)[l2 as int]);
    } else {
        assert(s.subrange(0, l1 as int) =~= dec(x1));
        assert((dec(x2) + (seq!['-'] + r2)).subrange(0, l1 as int) =~= dec(x2));
        lemma_dec_injective(x1, x2);
        assert(s.subrange(l1 as int + 1, s.len() as int) =~= r1);
        assert((dec(x2) + (seq!['-'] + r2)).subrange(l1 as int + 1, s.len() as int) =~= r2);
    }
}

proof fn lemma_first_unique(t: Seq<char>, i: int)
    requires
        first_placeholder_at(t, i),
    ensures
        (choose|j: int| first_placeholder_at(t, j)) == i,
{
    let j = choose|j: int| first_placeholder_at(t, j);
    assert(first_placeholder_at(t, j));
    if j < i {
        assert(!occurs_at(t, PLACEHOLDER@, j));
    } else if i < j {
        assert(!occurs_at(t, PLACEHOLDER@, i));
    }
}

/// Two distinct (team, instance) pairs never receive the same flag from a
/// template: the token names the team and the instance unambiguously.  In
/// particular two teams never share a flag, and a team that starts a new
/// instance gets a flag it never had.
pub proof fn law_flags_unique(
    t: Seq<char>,
    secret: Seq<char>,
    team1: u64,
    instance1: u64,
    team2: u64,
    instance2: u64,
)
    requires
        has_placeholder(t),
        team1 != team2 || instance1 != instance2,
    ensures
        flag_of(t, secret, team1, instance1) != flag_of(t, secret, team2, instance2),
{
    let i = choose|i: int| first_placeholder_at(t, i);
    lemma_placeholder_has_first(t);
    let k1 = token_of(team1, instance1, mac_of(secret, team1, instance1));
    let k2 = token_of(team2, instance2, mac_of(secret, team2, instance2));
    if flag_of(t, secret, team1, instance1) == flag_of(t, secret, team2, instance2) {
        let f = substituted(t, i, k1);
        assert(f.len() == substituted(t, i, k2).len());
        assert(k1.len() == k2.len());
        assert(f.subrange(i, i + k1.len()) =~= k1);
        assert(substituted(t, i, k2).subrange(i, i + k2.len()) =~= k2);
        lemma_split_numeral(team1 as nat, dec(instance1 as nat) + (seq!['-'] + mac_of(secret, team1, instance1)),
            team2 as nat, dec(instance2 as nat) + (seq!['-'] + mac_of(secret, team2, instance2)));
        lemma_split_numeral(instance1 as nat, mac_of(secret, team1, instance1),
            instance2 as nat, mac_of(secret, team2, instance2));
    }
}

proof fn lemma_placeholder_has_first(t: Seq<char>)
    requires
        has_placeholder(t),
    ensures
        exists|i: int| first_placeholder_at(t, i),
{
    let w = choose|i: int| occurs_at(t, PLACEHOLDER@, i);
    lemma_first_below(t, w);
}

proof fn lemma_first_below(t: Seq<char>, w: int)
    requires
        occurs_at(t, PLACEHOLDER@, w),
    ensures
        exists|i: int| first_placeholder_at(t, i),
    decreases w,
{
    if exists|j: int| 0 <= j < w && occurs_at(t, PLACEHOLDER@, j) {
        let j = choose|j: int| 0 <= j < w && occurs_at(t, PLACEHOLDER@, j);
        lemma_first_below(t, j);
    } else {
        assert(first_placeholder_at(t, w));
    }
}

/// What the provisioner decided for an instance.
pub open spec fn provision_result(
    judge: JudgeConfig,
    secret: Seq<char>,
    team_id: u64,
    instance_id: u64,
) -> Result<Option<Seq<char>>, CoreError> {
    match judge.judge_type {
        JudgeType::Static => match judge.flag_template {
            Some(t) => if has_placeholder(t@) {
                Ok(Some(flag_of(t@, secret, team_id, instance_id)))
            } else {
                Err(CoreError::PlanInvalid)
            },
            None => Err(CoreError::PlanInvalid),
        },
        _ => Ok(None),
    }
}

fn occurs_at_exec(t: &str, n: usize, p: &str, m: usize, i: usize) -> (r: bool)
    requires
        n == t@.len(),
        m == p@.len(),
        i + m <= n,
    ensures
        r == occurs_at(t@, p@, i as int),
{
    let mut k: usize = 0;
    while k < m
        invariant
            k <= m,
            n == t@.len(),
            m == p@.len(),
            i + m <= n,
            forall|q: int| 0 <= q < k ==> t@[i + q] == p@[q],
        decreases m - k,
    {
        if t.get_char(i + k) != p.get_char(k) {
            assert(t@.subrange(i as int, i + m)[k as int] != p@[k as int]);
            return false;
        }
        k = k + 1;
    }
    assert(t@.subrange(i as int, i + m) =~= p@);
    true
}

/// The first position of the placeholder in a template, if any.
pub fn find_placeholder(t: &str) -> (r: Option<usize>)
    ensures
        r matches Some(i) ==> first_placeholder_at(t@, i as int),
        r is None ==> !has_placeholder(t@),
{
    proof {
        reveal_strlit("[TOKEN]");
    }
    let n = t.unicode_len();
    let m = PLACEHOLDER.unicode_len();
    if m > n {
        return None;
    }
    let mut i: usize = 0;
    while i <= n - m
        invariant
            n == t@.len(),
            m == PLACEHOLDER@.len(),
            0 < m <= n,
            i <= n - m + 1,
            forall|j: int| 0 <= j < i ==> !occurs_at(t@, PLACEHOLDER@, j),
        decreases n - m + 1 - i,
    {
        if occurs_at_exec(t, n, PLACEHOLDER, m, i) {
            return Some(i);
        }
        i = i + 1;
    }
    None
}

/// Appends the characters of `s` from `from` up to `to`.
fn push_range(out: &mut String, s: &str, from: usize, to: usize)
    requires
        from <= to <= s@.len(),
    ensures
        final(out)@ == old(out)@ + s@.subrange(from as int, to as int),
{
    let ghost start = out@;
    let mut k = from;
    while k < to
        invariant
            from <= k <= to,
            to <= s@.len(),
            out@ == start + s@.subrange(from as int, k as int),
        decreases to - k,
    {
        let c = s.get_char(k);
        push_char(out, c);
        proof {
            assert(s@.subrange(from as int, k + 1) =~= s@.subrange(from as int, k as int).push(c));
        }
        k = k + 1;
    }
}

/// The digest characters of a token.
fn mac(secret: &str, team_id: u64, instance_id: u64) -> (r: String)
    ensures
        r@ == mac_of(secret@, team_id, instance_id),
{
    let mut input = String::from_str(secret);
    push_char(&mut input, '$');
    push_decimal(&mut input, team_id);
    push_char(&mut input, '$');
    push_decimal(&mut input, instance_id);
    proof {
        assert(input@ =~= mac_input(secret@, team_id, instance_id));
    }
    let digest = sha512(input.as_str());
    let mut r = String::new();
    push_range(&mut r, digest.as_str(), 0, MAC_LEN);
    proof {
        assert(r@ =~= mac_of(secret@, team_id, instance_id));
    }
    r
}

/// The token that identifies a team's instance in its flag.
pub fn token(secret: &str, team_id: u64, instance_id: u64) -> (r: String)
    ensures
        r@ == token_of(team_id, instance_id, mac_of(secret@, team_id, instance_id)),
{
    let m = mac(secret, team_id, instance_id);
    let mut r = String::new();
    push_decimal(&mut r, team_id);
    push_char(&mut r, '-');
    push_decimal(&mut r, instance_id);
    push_char(&mut r, '-');
    r.append(m.as_str());
    proof {
        assert(r@ =~= token_of(team_id, instance_id, mac_of(secret@, team_id, instance_id)));
    }
    r
}

/// Derives the flag of a team's instance.  A static challenge needs a
/// template holding the placeholder, which is replaced at its first
/// occurrence by the instance's token; without one provisioning fails before
/// anything is created.  Dynamic and script challenges are verified live and
/// get no flag.
pub fn provision(judge: &JudgeConfig, team_id: u64, instance_id: u64, secret: &str) -> (r: Result<
    Option<String>,
    CoreError,
>)
    ensures
        match (r, provision_result(*judge, secret@, team_id, instance_id)) {
            (Ok(Some(f)), Ok(Some(g))) => f@ == g,
            (Ok(None), Ok(None)) => true,
            (Err(e), Err(d)) => e == d,
            _ => false,
        },
{
    match judge.judge_type {
        JudgeType::Static => match &judge.flag_template {
            Some(t) => match find_placeholder(t.as_str()) {
                Some(i) => {
                    let m = PLACEHOLDER.unicode_len();
                    let n = t.unicode_len();
                    let tok = token(secret, team_id, instance_id);
                    let mut f = String::new();
                    push_range(&mut f, t.as_str(), 0, i);
                    f.append(tok.as_str());
                    push_range(&mut f, t.as_str(), i + m, n);
                    proof {
                        lemma_first_unique(t@, i as int);
                        assert(f@ =~= flag_of(t@, secret@, team_id, instance_id));
                    }
                    Ok(Some(f))
                },
                None => Err(CoreError::PlanInvalid),
            },
            None => Err(CoreError::PlanInvalid),
        },
        _ => Ok(None),
    }
}

} // verus!
