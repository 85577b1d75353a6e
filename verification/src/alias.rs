//! The grammar of room aliases and the question of who owns one.
//!
//! An alias reads `#localpart:domain`. The sigil `#` opens it, a single `:`
//! parts the local part from the domain, neither part is empty, and no
//! character is whitespace or a control character.

use vstd::prelude::*;
use vstd::string::*;
use vstd::std_specs::iter::IteratorSpec;
use crate::error::DirectoryError;
use crate::text::{contains_string, strings_view};

verus! {

broadcast use vstd::string::group_string_axioms;

/// The character that opens every alias.
pub const SIGIL: char = '#';

/// The character between local part and domain.
pub const SEPARATOR: char = ':';

/// Whitespace and control characters, which no alias may hold.
pub open spec fn is_disallowed(c: char) -> bool {
    let u = c as u32;
    u <= 0x20 || (0x7f <= u && u <= 0xa0) || u == 0x1680 || (0x2000 <= u && u <= 0x200a)
        || u == 0x2028 || u == 0x2029 || u == 0x202f || u == 0x205f || u == 0x3000
}

/// `s` is an alias whose separator stands at index `i`.
pub open spec fn splits_at(s: Seq<char>, i: int) -> bool {
    &&& 1 < i < s.len() - 1
    &&& s[0] == SIGIL
    &&& s[i] == SEPARATOR
    &&& forall|j: int| 0 <= j < s.len() ==> !is_disallowed(#[trigger] s[j])
    &&& forall|j: int| 0 <= j < s.len() && j != i ==> #[trigger] s[j] != SEPARATOR
}

/// `s` follows the grammar of aliases.
pub open spec fn well_formed(s: Seq<char>) -> bool {
    exists|i: int| splits_at(s, i)
}

/// Where the separator of a well-formed alias stands.
pub open spec fn separator_index(s: Seq<char>) -> int {
    choose|i: int| splits_at(s, i)
}

/// The local part of a well-formed alias: what stands between sigil and separator.
pub open spec fn localpart_of(s: Seq<char>) -> Seq<char> {
    s.subrange(1, separator_index(s))
}

/// The domain of a well-formed alias: what follows the separator.
pub open spec fn domain_of(s: Seq<char>) -> Seq<char> {
    s.subrange(separator_index(s) + 1, s.len() as int)
}

/// An alias has one separator only, so the index at which it splits is the
/// one that `separator_index` names.
pub proof fn lemma_split_unique(s: Seq<char>, i: int)
    requires
        splits_at(s, i),
    ensures
        well_formed(s),
        separator_index(s) == i,
{
    let k = separator_index(s);
    assert(splits_at(s, k));
    if k != i {
        assert(s[k] != SEPARATOR);
    }
}

/// The two parts of an alias.
#[derive(Debug)]
pub struct ParsedAlias {
    pub localpart: String,
    pub domain: String,
}

fn disallowed(c: char) -> (r: bool)
    ensures
        r == is_disallowed(c),
{
    let u: u32 = c as u32;
    u <= 0x20 || (0x7f <= u && u <= 0xa0) || u == 0x1680 || (0x2000 <= u && u <= 0x200a)
        || u == 0x2028 || u == 0x2029 || u == 0x202f || u == 0x205f || u == 0x3000
}

/// What a scan over the characters of a string found.
struct Scan {
    /// How many characters the string has.
    len: usize,
    /// How many of them are separators.
    separators: usize,
    /// The index of the first separator, if there is one.
    first: usize,
    /// Whether the first character is the sigil.
    sigil: bool,
    /// Whether a disallowed character occurs.
    dirty: bool,
}

/// The number of separators among the first `n` characters of `s`.
spec fn separators_in(s: Seq<char>, n: int) -> int
    decreases n,
{
    if n <= 0 {
        0
    } else {
        separators_in(s, n - 1) + if s[n - 1] == SEPARATOR { 1int } else { 0int }
    }
}

proof fn lemma_no_separator(s: Seq<char>, n: int)
    requires
        0 <= n <= s.len(),
    ensures
        separators_in(s, n) >= 0,
        separators_in(s, n) == 0 <==> forall|j: int| 0 <= j < n ==> #[trigger] s[j] != SEPARATOR,
    decreases n,
{
    if n > 0 {
        lemma_no_separator(s, n - 1);
        if separators_in(s, n) == 0 {
            assert forall|j: int| 0 <= j < n implies #[trigger] s[j] != SEPARATOR by {
                if j < n - 1 {
                }
            }
        }
    }
}

proof fn lemma_one_separator(s: Seq<char>, n: int, i: int)
    requires
        0 <= i < n <= s.len(),
        s[i] == SEPARATOR,
        forall|j: int| 0 <= j < i ==> #[trigger] s[j] != SEPARATOR,
    ensures
        separators_in(s, n) == 1 <==> forall|j: int| 0 <= j < n && j != i ==> #[trigger] s[j] != SEPARATOR,
        separators_in(s, n) >= 1,
    decreases n,
{
    if n == i + 1 {
        lemma_no_separator(s, i);
    } else {
        lemma_one_separator(s, n - 1, i);
        if separators_in(s, n) == 1 {
            assert forall|j: int| 0 <= j < n && j != i implies #[trigger] s[j] != SEPARATOR by {
                if j < n - 1 {
                }
            }
        }
    }
}

fn scan(alias: &str) -> (r: Scan)
    ensures
        r.len == alias@.len(),
        r.separators as int == separators_in(alias@, alias@.len() as int) || (r.separators == 2
            && separators_in(alias@, alias@.len() as int) >= 2),
        r.separators > 0 ==> r.first < r.len && alias@[r.first as int] == SEPARATOR
            && forall|j: int| 0 <= j < r.first ==> #[trigger] alias@[j] != SEPARATOR,
        r.sigil <==> alias@.len() > 0 && alias@[0] == SIGIL,
        r.dirty <==> exists|j: int| 0 <= j < alias@.len() && is_disallowed(#[trigger] alias@[j]),
{
    let mut it = alias.chars();
    let mut r = Scan { len: 0, separators: 0, first: 0, sigil: false, dirty: false };
    let ghost s = alias@;
    let len: usize = alias.unicode_len();
    loop
        invariant
            s == alias@,
            len == s.len(),
            r.len <= len,
            it.remaining() == s.subrange(r.len as int, s.len() as int),
            it.obeys_prophetic_iter_laws(),
            it.decrease() is Some,
            r.separators as int == separators_in(s, r.len as int) || (r.separators == 2
                && separators_in(s, r.len as int) >= 2),
            r.separators <= 2,
            r.separators > 0 ==> r.first < r.len && s[r.first as int] == SEPARATOR
                && forall|j: int| 0 <= j < r.first ==> #[trigger] s[j] != SEPARATOR,
            r.separators == 0 ==> forall|j: int| 0 <= j < r.len ==> #[trigger] s[j] != SEPARATOR,
            r.sigil <==> r.len > 0 && s[0] == SIGIL,
            r.dirty <==> exists|j: int| 0 <= j < r.len && is_disallowed(#[trigger] s[j]),
        ensures
            r.len == len,
        decreases len - r.len,
    {
        let ghost before = it;
        let next = it.next();
        match next {
            None => {
                break;
            },
            Some(c) => {
                assert(before.remaining().len() > 0);
                assert(c == s[r.len as int]);
                assert(it.remaining() == s.subrange(r.len as int + 1, s.len() as int));
                if r.len == 0 {
                    r.sigil = c == SIGIL;
                }
                if c == SEPARATOR {
                    if r.separators == 0 {
                        r.first = r.len;
                    }
                    if r.separators < 2 {
                        r.separators = r.separators + 1;
                    }
                }
                if disallowed(c) {
                    r.dirty = true;
                }
                r.len = r.len + 1;
            },
        }
    }
    r
}

/// Splits an alias into local part and domain.
///
/// Succeeds on the strings that follow the grammar, and on no others; these
/// fail with `MalformedAlias`.
pub fn parse(alias: &str) -> (r: Result<ParsedAlias, DirectoryError>)
    ensures
        r is Ok <==> well_formed(alias@),
        r matches Ok(p) ==> p.localpart@ == localpart_of(alias@) && p.domain@ == domain_of(alias@),
        r matches Err(e) ==> e == DirectoryError::MalformedAlias,
{
    let found = scan(alias);
    let ghost s = alias@;
    if !found.sigil || found.dirty || found.separators != 1 || found.first < 2 || found.first + 1
        >= found.len {
        proof {
            if well_formed(s) {
                let i = separator_index(s);
                assert(splits_at(s, i));
                lemma_no_separator(s, s.len() as int);
                if found.separators > 0 {
                    lemma_one_separator(s, s.len() as int, found.first as int);
                    if found.first as int != i {
                        assert(s[found.first as int] != SEPARATOR);
                    }
                    lemma_one_separator(s, s.len() as int, i);
                }
            }
        }
        return Err(DirectoryError::MalformedAlias);
    }
    let at: usize = found.first;
    proof {
        lemma_one_separator(s, s.len() as int, at as int);
        assert(splits_at(s, at as int));
        lemma_split_unique(s, at as int);
    }
    let localpart = alias.substring_char(1, at).to_owned();
    let domain = alias.substring_char(at + 1, found.len).to_owned();
    Ok(ParsedAlias { localpart, domain })
}

/// The domains that this instance serves.
#[derive(Debug)]
pub struct Authority {
    pub local_domains: Vec<String>,
}

impl Authority {
    /// The domains served, as character sequences.
    pub open spec fn domains(&self) -> Seq<Seq<char>> {
        strings_view(self.local_domains@)
    }

    /// An authority over the domains given.
    pub fn new(local_domains: Vec<String>) -> (a: Authority)
        ensures
            a.local_domains == local_domains,
    {
        Authority { local_domains }
    }

    /// Whether this instance serves `domain`: whether it is, character for
    /// character, one of the configured domains.
    pub fn is_local_authority(&self, domain: &str) -> (r: bool)
        ensures
            r == self.domains().contains(domain@),
    {
        let needle = domain.to_owned();
        contains_string(&self.local_domains, &needle)
    }
}

} // verus!
