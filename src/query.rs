//! Parsing of marketplace queries into the constraints they carry.

use vstd::prelude::*;
use vstd::string::StrSliceExecFns;
use vstd::string::StringExecFns;
use crate::attrs::{attr_table, attr_url_name, lookup_key};

verus! {

/// The words of a text as `str::split_whitespace` splits it.
pub uninterp spec fn whitespace_words(s: Seq<char>) -> Seq<Seq<char>>;

pub open spec fn words_view(v: Seq<String>) -> Seq<Seq<char>> {
    v.map_values(|s: String| s@)
}

/// Relies on str::split_whitespace: the maximal runs of non-whitespace
/// characters, in order.
#[verifier::external_body]
fn split_words(s: &str) -> (r: Vec<String>)
    ensures
        words_view(r@) == whitespace_words(s@),
{
    s.split_whitespace().map(|w| w.to_string()).collect()
}

/// A word that names an attribute constraint: `+name` or `-name`.
pub open spec fn signed_word(w: Seq<char>) -> bool {
    w.len() > 0 && (w[0] == '+' || w[0] == '-')
}

/// Index of the first word at or after `i` that is not signed.
pub open spec fn stats_end(w: Seq<Seq<char>>, i: int) -> int
    decreases w.len() - i,
{
    if i >= w.len() {
        w.len() as int
    } else if !signed_word(w[i]) {
        i
    } else {
        stats_end(w, i + 1)
    }
}

/// Constraints gathered so far: resolved positive identifiers, the negative
/// identifier (empty for none), and the names that did not resolve.
pub type StatsView = (Seq<Seq<char>>, Seq<char>, Seq<Seq<char>>);

/// Takes one signed word into the constraints. A later negative attribute
/// replaces an earlier one.
pub open spec fn stat_step(acc: StatsView, word: Seq<char>) -> StatsView {
    let name = word.drop_first();
    match lookup_key(attr_table(), name) {
        Some(id) => if word[0] == '+' {
            (acc.0.push(id), acc.1, acc.2)
        } else {
            (acc.0, id, acc.2)
        },
        None => (acc.0, acc.1, acc.2.push(name)),
    }
}

/// Constraints of the signed words from index 1 up to `n`.
pub open spec fn stats_upto(w: Seq<Seq<char>>, n: int) -> StatsView
    decreases n,
{
    if n <= 1 {
        (Seq::empty(), Seq::empty(), Seq::empty())
    } else {
        stat_step(stats_upto(w, n - 1), w[n - 1])
    }
}

/// What a riven query says. The first word is the command; the signed words
/// after it are attribute constraints; the rest, joined without spaces, is
/// the weapon name.
pub open spec fn riven_query_spec(w: Seq<Seq<char>>) -> (StatsView, Seq<char>) {
    let start = if w.len() > 0 { 1int } else { 0int };
    let e = stats_end(w, start);
    (stats_upto(w, e), w.subrange(e, w.len() as int).flatten())
}

/// A parsed riven query.
pub struct RivenQuery {
    /// Canonical identifiers of the required positive attributes.
    pub positive_stats: Vec<String>,
    /// Canonical identifier of the required negative attribute, empty for none.
    pub negative_stats: String,
    /// Attribute names the dictionary does not know; the query goes on without them.
    pub unresolved: Vec<String>,
    /// The weapon name.
    pub item_name: String,
}

impl RivenQuery {
    pub open spec fn view(&self) -> (StatsView, Seq<char>) {
        ((words_view(self.positive_stats@), self.negative_stats@, words_view(self.unresolved@)), self.item_name@)
    }
}

fn is_signed(w: &str) -> (r: bool)
    ensures
        r == signed_word(w@),
{
    if w.unicode_len() == 0 {
        return false;
    }
    let c = w.get_char(0);
    c == '+' || c == '-'
}

/// Parses a riven query from its words.
pub fn parse_riven_words(words: &Vec<String>) -> (r: RivenQuery)
    ensures
        r.view() == riven_query_spec(words_view(words@)),
{
    let ghost w = words_view(words@);
    let n = words.len();
    let start: usize = if n > 0 { 1 } else { 0 };
    let mut i: usize = start;
    let mut positive: Vec<String> = Vec::new();
    let mut negative = String::new();
    let mut unresolved: Vec<String> = Vec::new();
    assert(words_view(positive@) =~= Seq::<Seq<char>>::empty());
    assert(words_view(unresolved@) =~= Seq::<Seq<char>>::empty());
    while i < n && is_signed(words[i].as_str())
        invariant
            n == words@.len(),
            w == words_view(words@),
            w.len() == n,
            start <= i <= n,
            start == (if n > 0 { 1int } else { 0int }),
            stats_end(w, start as int) == stats_end(w, i as int),
            (words_view(positive@), negative@, words_view(unresolved@)) == stats_upto(w, i as int),
        decreases n - i,
    {
        let word = words[i].as_str();
        assert(word@ == w[i as int]);
        let len = word.unicode_len();
        let name = word.substring_char(1, len);
        assert(name@ =~= w[i as int].drop_first());
        let sign = word.get_char(0);
        match attr_url_name(name) {
            Some(id) => {
                if sign == '+' {
                    positive.push(id.to_owned());
                    assert(words_view(positive@) =~= stats_upto(w, i as int).0.push(id@));
                } else {
                    negative = id.to_owned();
                }
            },
            None => {
                unresolved.push(name.to_owned());
                assert(words_view(unresolved@) =~= stats_upto(w, i as int).2.push(name@));
            },
        }
        i = i + 1;
    }
    let e = i;
    let mut item = String::new();
    assert(w.subrange(e as int, e as int).flatten() =~= Seq::<char>::empty());
    while i < n
        invariant
            n == words@.len(),
            w == words_view(words@),
            w.len() == n,
            e <= i <= n,
            item@ == w.subrange(e as int, i as int).flatten(),
        decreases n - i,
    {
        let word = words[i].as_str();
        proof {
            assert(w.subrange(e as int, i + 1) =~= w.subrange(e as int, i as int).push(w[i as int]));
            w.subrange(e as int, i as int).lemma_flatten_push(w[i as int]);
        }
        item.append(word);
        i = i + 1;
    }
    RivenQuery { positive_stats: positive, negative_stats: negative, unresolved, item_name: item }
}

/// Parses the text of a riven query.
pub fn parse_riven_query(content: &str) -> (r: RivenQuery)
    ensures
        r.view() == riven_query_spec(whitespace_words(content@)),
{
    let words = split_words(content);
    parse_riven_words(&words)
}

/// Whether `char::is_whitespace` holds of `c` (Unicode White_Space).
pub uninterp spec fn is_ws(c: char) -> bool;

/// Relies on char::is_whitespace.
#[verifier::external_body]
fn char_is_ws(c: char) -> (r: bool)
    ensures
        r == is_ws(c),
{
    c.is_whitespace()
}

/// ASCII upper-case letters to lower case; every other character unchanged.
pub open spec fn ascii_lower(c: char) -> char {
    if 'A' <= c <= 'Z' {
        ((c as u32) + 32) as u32 as char
    } else {
        c
    }
}

/// Relies on char::to_ascii_lowercase: 'A'..='Z' map to 'a'..='z', all
/// other characters are returned unchanged.
#[verifier::external_body]
fn lower_char(c: char) -> (r: char)
    ensures
        r == ascii_lower(c),
{
    c.to_ascii_lowercase()
}

/// Relies on String::push: appends one character.
#[verifier::external_body]
fn push_char(s: &mut String, c: char)
    ensures
        final(s)@ == old(s)@.push(c),
{
    s.push(c)
}

/// Value of a run of decimal digits.
pub open spec fn digits_value(s: Seq<char>) -> int
    decreases s.len(),
{
    if s.len() == 0 {
        0
    } else {
        digits_value(s.drop_last()) * 10 + (s.last() as int - '0' as int)
    }
}

pub open spec fn all_digits(s: Seq<char>) -> bool {
    s.len() > 0 && forall|i: int| 0 <= i < s.len() ==> '0' <= #[trigger] s[i] <= '9'
}

/// The integer an optionally signed decimal numeral denotes.
pub open spec fn numeral_value(s: Seq<char>) -> Option<int> {
    if s.len() > 0 && s[0] == '-' && all_digits(s.drop_first()) {
        Some(-digits_value(s.drop_first()))
    } else if s.len() > 0 && s[0] == '+' && all_digits(s.drop_first()) {
        Some(digits_value(s.drop_first()))
    } else if all_digits(s) {
        Some(digits_value(s))
    } else {
        None
    }
}

/// What parsing `s` as an `i32` gives: the numeral's value when it fits.
pub open spec fn i32_of(s: Seq<char>) -> Option<i32> {
    match numeral_value(s) {
        Some(v) => if i32::MIN <= v <= i32::MAX {
            Some(v as i32)
        } else {
            None
        },
        None => None,
    }
}

/// Relies on `<i32 as FromStr>::from_str`: an optional '+' or '-' followed
/// by at least one ASCII digit, with a value in range, parses to that
/// value; anything else is an error.
#[verifier::external_body]
fn parse_i32(s: &str) -> (r: Option<i32>)
    ensures
        r == i32_of(s@),
{
    s.parse::<i32>().ok()
}

/// Lower-cases ASCII letters and removes spaces: the key under which item
/// names are stored and looked up.
pub open spec fn normalized_name(s: Seq<char>) -> Seq<char> {
    s.map_values(|c: char| ascii_lower(c)).filter(|c: char| c != ' ')
}

/// The lookup key of an item name (see `normalized_name`).
pub fn normalize_item_name(s: &str) -> (r: String)
    ensures
        r@ == normalized_name(s@),
{
    let ghost lower = |c: char| ascii_lower(c);
    let ghost keep = |c: char| c != ' ';
    let n = s.unicode_len();
    let mut out = String::new();
    let mut i: usize = 0;
    assert(s@.subrange(0, 0).map_values(lower) =~= Seq::<char>::empty());
    while i < n
        invariant
            n == s@.len(),
            i <= n,
            lower == (|c: char| ascii_lower(c)),
            keep == (|c: char| c != ' '),
            out@ == s@.subrange(0, i as int).map_values(lower).filter(keep),
        decreases n - i,
    {
        let c = lower_char(s.get_char(i));
        proof {
            let m = s@.subrange(0, i + 1).map_values(lower);
            assert(m.drop_last() =~= s@.subrange(0, i as int).map_values(lower));
            assert(m.last() == c);
            reveal(Seq::filter);
        }
        if c != ' ' {
            push_char(&mut out, c);
        }
        i = i + 1;
    }
    assert(s@.subrange(0, n as int) =~= s@);
    out
}

/// Index after the leading repetitions of "wm" from `i` on.
pub open spec fn wm_from(s: Seq<char>, i: int) -> int
    decreases s.len() - i,
{
    if 0 <= i && i + 2 <= s.len() && s[i] == 'w' && s[i + 1] == 'm' {
        wm_from(s, i + 2)
    } else {
        i
    }
}

/// Index after the leading repetitions of '+' from `i` on.
pub open spec fn plus_from(s: Seq<char>, i: int) -> int
    decreases s.len() - i,
{
    if 0 <= i && i < s.len() && s[i] == '+' {
        plus_from(s, i + 1)
    } else {
        i
    }
}

/// Index of the first non-whitespace character from `i` on, or the length.
pub open spec fn lead_from(s: Seq<char>, i: int) -> int
    decreases s.len() - i,
{
    if i >= s.len() {
        s.len() as int
    } else if !is_ws(s[i]) {
        i
    } else {
        lead_from(s, i + 1)
    }
}

/// One past the last non-whitespace character before `j`, or 0.
pub open spec fn end_from(s: Seq<char>, j: int) -> int
    decreases j,
{
    if j <= 0 {
        0
    } else if !is_ws(s[j - 1]) {
        j
    } else {
        end_from(s, j - 1)
    }
}

/// `s` without leading and trailing whitespace.
pub open spec fn trimmed(s: Seq<char>) -> Seq<char> {
    let a = lead_from(s, 0);
    let b = end_from(s, s.len() as int);
    if a >= b {
        Seq::empty()
    } else {
        s.subrange(a, b)
    }
}

/// Index of the first space from `i` on, or the length.
pub open spec fn space_from(s: Seq<char>, i: int) -> int
    decreases s.len() - i,
{
    if i >= s.len() {
        s.len() as int
    } else if s[i] == ' ' {
        i
    } else {
        space_from(s, i + 1)
    }
}

/// The parameter text of an item query: after the leading "wm"s, trimmed.
pub open spec fn item_param(content: Seq<char>) -> Seq<char> {
    trimmed(content.subrange(wm_from(content, 0), content.len() as int))
}

/// Why an item query was refused.
#[derive(Debug, Clone, Copy, PartialEq, Eq, Structural)]
pub enum QueryError {
    /// A mod rank was given and is not a number.
    ModRankNotNumber,
}

/// What an item query says: `Err(())` when a mod rank is given and is not
/// a number; else the mod rank, if any, and the lookup key of the item.
/// A rank is given as `+<rank> <name>`; a leading '+' with no space after
/// it belongs to the name.
pub open spec fn item_query_spec(content: Seq<char>) -> Result<(Option<i32>, Seq<char>), ()> {
    let p = item_param(content);
    if p.len() > 0 && p[0] == '+' {
        let a = plus_from(p, 0);
        let k = space_from(p, a);
        if k < p.len() {
            match i32_of(p.subrange(a, k)) {
                Some(v) => Ok((Some(v), normalized_name(p.subrange(k + 1, p.len() as int)))),
                None => Err(()),
            }
        } else {
            Ok((None, normalized_name(p)))
        }
    } else {
        Ok((None, normalized_name(p)))
    }
}

proof fn lemma_lead_bounds(s: Seq<char>, i: int)
    requires
        0 <= i <= s.len(),
    ensures
        i <= lead_from(s, i) <= s.len(),
    decreases s.len() - i,
{
    if i < s.len() && is_ws(s[i]) {
        lemma_lead_bounds(s, i + 1);
    }
}

proof fn lemma_end_bounds(s: Seq<char>, j: int)
    requires
        0 <= j <= s.len(),
    ensures
        0 <= end_from(s, j) <= j,
    decreases j,
{
    if j > 0 && is_ws(s[j - 1]) {
        lemma_end_bounds(s, j - 1);
    }
}

fn trim_text(s: &str) -> (r: &str)
    ensures
        r@ == trimmed(s@),
{
    let n = s.unicode_len();
    let mut a: usize = 0;
    while a < n && char_is_ws(s.get_char(a))
        invariant
            n == s@.len(),
            a <= n,
            lead_from(s@, 0) == lead_from(s@, a as int),
        decreases n - a,
    {
        a = a + 1;
    }
    let mut b: usize = n;
    while b > 0 && char_is_ws(s.get_char(b - 1))
        invariant
            n == s@.len(),
            b <= n,
            end_from(s@, n as int) == end_from(s@, b as int),
        decreases b,
    {
        b = b - 1;
    }
    if a >= b {
        let e = s.substring_char(0, 0);
        assert(e@ =~= Seq::<char>::empty());
        return e;
    }
    s.substring_char(a, b)
}

/// Parses the text of an item query (see `item_query_spec`).
pub fn parse_item_query(content: &str) -> (r: Result<(Option<i32>, String), QueryError>)
    ensures
        match (r, item_query_spec(content@)) {
            (Ok((l, name)), Ok((l2, name2))) => l == l2 && name@ == name2,
            (Err(QueryError::ModRankNotNumber), Err(())) => true,
            _ => false,
        },
{
    let n = content.unicode_len();
    let mut w: usize = 0;
    while n - w >= 2 && content.get_char(w) == 'w' && content.get_char(w + 1) == 'm'
        invariant
            n == content@.len(),
            w <= n,
            wm_from(content@, 0) == wm_from(content@, w as int),
        decreases n - w,
    {
        w = w + 2;
    }
    let rest = content.substring_char(w, n);
    let p = trim_text(rest);
    let pl = p.unicode_len();
    if pl > 0 && p.get_char(0) == '+' {
        let mut a: usize = 0;
        while a < pl && p.get_char(a) == '+'
            invariant
                pl == p@.len(),
                a <= pl,
                plus_from(p@, 0) == plus_from(p@, a as int),
            decreases pl - a,
        {
            a = a + 1;
        }
        let mut k: usize = a;
        while k < pl && p.get_char(k) != ' '
            invariant
                pl == p@.len(),
                a <= k <= pl,
                space_from(p@, a as int) == space_from(p@, k as int),
            decreases pl - k,
        {
            k = k + 1;
        }
        if k < pl {
            let lvl = p.substring_char(a, k);
            match parse_i32(lvl) {
                Some(v) => {
                    let other = p.substring_char(k + 1, pl);
                    return Ok((Some(v), normalize_item_name(other)));
                },
                None => {
                    return Err(QueryError::ModRankNotNumber);
                },
            }
        }
    }
    Ok((None, normalize_item_name(p)))
}

} // verus!
