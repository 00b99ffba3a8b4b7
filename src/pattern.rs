//! Address patterns: IP prefixes, domain regular expressions and domain wildcards.
use vstd::prelude::*;
use vstd::string::*;

use crate::model::{AddrView, Address, IpAddr};

verus! {

/// What `regex::Regex::new(pattern)` followed by `is_match(haystack)` yields;
/// `None` where the pattern does not compile.
pub uninterp spec fn regex_search(pattern: Seq<char>, haystack: Seq<char>) -> Option<bool>;

/// Relies on regex::Regex::new to compile `pattern` and on Regex::is_match to
/// search `haystack` for a match anywhere in it.
#[verifier::external_body]
fn regex_is_match(pattern: &str, haystack: &str) -> (r: Option<bool>)
    ensures
        r == regex_search(pattern@, haystack@),
{
    match regex::Regex::new(pattern) {
        Ok(re) => Some(re.is_match(haystack)),
        Err(_) => None,
    }
}

/// Relies on regex::Regex::new: whether the pattern compiles. A compiled
/// pattern gives a search result for every haystack, the empty one too.
#[verifier::external_body]
fn regex_compiles(pattern: &str) -> (r: bool)
    ensures
        r == (regex_search(pattern@, Seq::empty()) is Some),
{
    match regex::Regex::new(pattern) {
        Ok(_) => true,
        Err(_) => false,
    }
}

/// The characters that have a meaning in a regular expression.
pub open spec fn is_regex_meta(c: char) -> bool {
    c == '\\' || c == '.' || c == '+' || c == '*' || c == '?' || c == '(' || c == ')' || c == '|'
        || c == '[' || c == ']' || c == '{' || c == '}' || c == '^' || c == '$' || c == '#'
        || c == '&' || c == '-' || c == '~'
}

/// `s` with a backslash put before each meta character.
pub open spec fn regex_escaped(s: Seq<char>) -> Seq<char>
    decreases s.len(),
{
    if s.len() == 0 {
        Seq::empty()
    } else if is_regex_meta(s.last()) {
        regex_escaped(s.drop_last()) + seq!['\\', s.last()]
    } else {
        regex_escaped(s.drop_last()).push(s.last())
    }
}

/// Relies on regex::escape: each regex meta character of `s` gets a backslash
/// before it, every other character is kept.
#[verifier::external_body]
fn regex_escape(s: &str) -> (r: String)
    ensures
        r@ == regex_escaped(s@),
{
    regex::escape(s)
}

/// A regular expression for one DNS label.
pub open spec fn label_class() -> Seq<char> {
    "[A-Za-z0-9-]{1,63}"@
}

/// `s` with each escaped star (`\*`), read from the left, replaced by a DNS label class.
pub open spec fn stars_to_labels(s: Seq<char>) -> Seq<char>
    decreases s.len(),
{
    if s.len() == 0 {
        Seq::empty()
    } else if s.len() >= 2 && s[0] == '\\' && s[1] == '*' {
        label_class() + stars_to_labels(s.subrange(2, s.len() as int))
    } else {
        seq![s[0]] + stars_to_labels(s.subrange(1, s.len() as int))
    }
}

/// The anchored regular expression that a domain wildcard stands for.
pub open spec fn wildcard_regex(w: Seq<char>) -> Seq<char> {
    "\\A"@ + stars_to_labels(regex_escaped(w)) + "\\z"@
}

/// Replaces each escaped star of `s` by the DNS label class.
pub fn replace_escaped_stars(s: &str) -> (r: String)
    ensures
        r@ == stars_to_labels(s@),
{
    let n = s.unicode_len();
    let mut out = String::new();
    let mut i: usize = 0;
    assert(s@.subrange(0, n as int) =~= s@);
    assert(out@ + stars_to_labels(s@) =~= stars_to_labels(s@));
    while i < n
        invariant
            n == s@.len(),
            i <= n,
            out@ + stars_to_labels(s@.subrange(i as int, n as int)) == stars_to_labels(s@),
        decreases n - i,
    {
        let rest = Ghost(s@.subrange(i as int, n as int));
        let c = s.get_char(i);
        if c == '\\' && i + 1 < n && s.get_char(i + 1) == '*' {
            assert(rest@.subrange(2, rest@.len() as int) =~= s@.subrange(i + 2, n as int));
            let label = "[A-Za-z0-9-]{1,63}";
            out.append(label);
            assert(out@ + stars_to_labels(s@.subrange(i + 2, n as int)) =~= stars_to_labels(s@));
            i = i + 2;
        } else {
            assert(rest@.subrange(1, rest@.len() as int) =~= s@.subrange(i + 1, n as int));
            let one = s.substring_char(i, i + 1);
            assert(one@ =~= seq![c]);
            out.append(one);
            assert(out@ + stars_to_labels(s@.subrange(i + 1, n as int)) =~= stars_to_labels(s@));
            i = i + 1;
        }
    }
    assert(s@.subrange(n as int, n as int) =~= Seq::<char>::empty());
    assert(out@ =~= stars_to_labels(s@));
    out
}

/// The anchored regular expression for a domain wildcard: every `*` matches
/// exactly one DNS label, everything else matches itself.
pub fn wildcard_to_regex(wildcard: &str) -> (r: String)
    ensures
        r@ == wildcard_regex(wildcard@),
{
    let escaped = regex_escape(wildcard);
    let body = replace_escaped_stars(escaped.as_str());
    let mut out = String::new();
    out.append("\\A");
    out.append(body.as_str());
    out.append("\\z");
    out
}

/// The network mask of an IPv4 prefix length.
pub open spec fn mask_v4(prefix: u8) -> u32 {
    if prefix == 0 {
        0
    } else {
        (!0u32) << ((32 - prefix) as u32)
    }
}

/// The network mask of an IPv6 prefix length.
pub open spec fn mask_v6(prefix: u8) -> u128 {
    if prefix == 0 {
        0
    } else {
        (!0u128) << ((128 - prefix) as u128)
    }
}

/// Pattern for domain names.
#[derive(Debug, Clone, PartialEq, Eq)]
pub enum DomainPattern {
    /// A regular expression searched for in the domain name.
    Regex { pattern: String },
    /// A domain name in which each `*` stands for one label.
    Wildcard { wildcard: String },
}

/// Pattern for destination addresses.
#[derive(Debug, Clone, PartialEq, Eq)]
pub enum AddressPattern {
    /// e.g. 192.168.0.1/16
    IpAddr { addr: IpAddr, prefix: u8 },
    Domain(DomainPattern),
}

/// A prefix longer than the address it is given for.
#[derive(Debug, Clone, Copy, PartialEq, Eq, Structural)]
pub enum InvalidPrefix {
    V4 { addr: u32, prefix: u8 },
    V6 { addr: u128, prefix: u8 },
}

impl InvalidPrefix {
    fn v4(addr: u32, prefix: u8) -> (r: Self)
        ensures
            r == (InvalidPrefix::V4 { addr, prefix }),
    {
        InvalidPrefix::V4 { addr, prefix }
    }

    fn v6(addr: u128, prefix: u8) -> (r: Self)
        ensures
            r == (InvalidPrefix::V6 { addr, prefix }),
    {
        InvalidPrefix::V6 { addr, prefix }
    }
}

impl AddressPattern {
    /// An IP prefix is at most as long as its address.
    pub open spec fn wf(&self) -> bool {
        match self {
            AddressPattern::IpAddr { addr: IpAddr::V4(_), prefix } => *prefix <= 32,
            AddressPattern::IpAddr { addr: IpAddr::V6(_), prefix } => *prefix <= 128,
            AddressPattern::Domain(_) => true,
        }
    }

    /// A regular expression pattern compiles.
    pub open spec fn spec_compiles(&self) -> bool {
        self matches AddressPattern::Domain(DomainPattern::Regex { pattern }) ==> regex_search(
            pattern@,
            Seq::empty(),
        ) is Some
    }

    /// Whether a regular expression pattern compiles; other patterns do.
    pub fn compiles(&self) -> (r: bool)
        ensures
            r == self.spec_compiles(),
    {
        match self {
            AddressPattern::Domain(DomainPattern::Regex { pattern }) => regex_compiles(pattern.as_str()),
            _ => true,
        }
    }

    /// Whether the pattern matches a destination address.
    pub open spec fn spec_match(&self, addr: AddrView) -> bool {
        match (*self, addr) {
            (AddressPattern::IpAddr { addr: IpAddr::V4(p), prefix }, AddrView::Ip(IpAddr::V4(a), _)) =>
                p & mask_v4(prefix) == a & mask_v4(prefix),
            (AddressPattern::IpAddr { addr: IpAddr::V6(p), prefix }, AddrView::Ip(IpAddr::V6(a), _)) =>
                p & mask_v6(prefix) == a & mask_v6(prefix),
            (AddressPattern::Domain(DomainPattern::Regex { pattern }), AddrView::Domain(d, _)) =>
                regex_search(pattern@, d) == Some(true),
            (AddressPattern::Domain(DomainPattern::Wildcard { wildcard }), AddrView::Domain(d, _)) =>
                regex_search(wildcard_regex(wildcard@), d) == Some(true),
            _ => false,
        }
    }

    /// An IP prefix pattern; fails where the prefix is longer than the address.
    pub fn addr(addr: IpAddr, prefix: u8) -> (r: Result<Self, InvalidPrefix>)
        ensures
            match addr {
                IpAddr::V4(a) => if prefix <= 32 {
                    r == Ok::<Self, InvalidPrefix>(AddressPattern::IpAddr { addr, prefix })
                } else {
                    r == Err::<Self, InvalidPrefix>(InvalidPrefix::V4 { addr: a, prefix })
                },
                IpAddr::V6(a) => if prefix <= 128 {
                    r == Ok::<Self, InvalidPrefix>(AddressPattern::IpAddr { addr, prefix })
                } else {
                    r == Err::<Self, InvalidPrefix>(InvalidPrefix::V6 { addr: a, prefix })
                },
            },
            r matches Ok(p) ==> p.wf(),
    {
        match addr {
            IpAddr::V4(a) => {
                if prefix <= 32 {
                    Ok(AddressPattern::IpAddr { addr, prefix })
                } else {
                    Err(InvalidPrefix::v4(a, prefix))
                }
            },
            IpAddr::V6(a) => {
                if prefix <= 128 {
                    Ok(AddressPattern::IpAddr { addr, prefix })
                } else {
                    Err(InvalidPrefix::v6(a, prefix))
                }
            },
        }
    }

    /// A domain pattern given by a regular expression.
    pub fn regex(pattern: &str) -> (r: Self)
        ensures
            r == AddressPattern::Domain(DomainPattern::Regex { pattern: r->Domain_0->pattern }),
            (r->Domain_0->pattern)@ == pattern@,
    {
        AddressPattern::Domain(DomainPattern::Regex { pattern: pattern.to_owned() })
    }

    /// A domain pattern given by a wildcard.
    pub fn wildcard(wildcard: &str) -> (r: Self)
        ensures
            r == AddressPattern::Domain(DomainPattern::Wildcard { wildcard: r->Domain_0->wildcard }),
            (r->Domain_0->wildcard)@ == wildcard@,
    {
        AddressPattern::Domain(DomainPattern::Wildcard { wildcard: wildcard.to_owned() })
    }

    /// A copy of this pattern.
    pub fn duplicate(&self) -> (r: Self)
        ensures
            r == *self,
    {
        match self {
            AddressPattern::IpAddr { addr, prefix } => AddressPattern::IpAddr { addr: *addr, prefix: *prefix },
            AddressPattern::Domain(DomainPattern::Regex { pattern }) => AddressPattern::Domain(
                DomainPattern::Regex { pattern: pattern.clone() },
            ),
            AddressPattern::Domain(DomainPattern::Wildcard { wildcard }) => AddressPattern::Domain(
                DomainPattern::Wildcard { wildcard: wildcard.clone() },
            ),
        }
    }

    /// Whether the pattern matches a destination address. Patterns never
    /// match an address of another kind (IP against domain, IPv4 against IPv6).
    pub fn is_match(&self, addr: &Address) -> (r: bool)
        requires
            self.wf(),
        ensures
            r == self.spec_match(addr@),
    {
        match (self, addr) {
            (AddressPattern::IpAddr { addr: IpAddr::V4(p), prefix }, Address::IpAddr(IpAddr::V4(a), _)) => {
                let mask: u32 = if *prefix == 0 {
                    0
                } else {
                    (!0u32) << ((32 - *prefix) as u32)
                };
                *p & mask == *a & mask
            },
            (AddressPattern::IpAddr { addr: IpAddr::V6(p), prefix }, Address::IpAddr(IpAddr::V6(a), _)) => {
                let mask: u128 = if *prefix == 0 {
                    0
                } else {
                    (!0u128) << ((128 - *prefix) as u128)
                };
                *p & mask == *a & mask
            },
            (AddressPattern::Domain(DomainPattern::Regex { pattern }), Address::Domain(d, _)) => {
                match regex_is_match(pattern.as_str(), d.as_str()) {
                    Some(found) => found,
                    None => false,
                }
            },
            (AddressPattern::Domain(DomainPattern::Wildcard { wildcard }), Address::Domain(d, _)) => {
                let re = wildcard_to_regex(wildcard.as_str());
                match regex_is_match(re.as_str(), d.as_str()) {
                    Some(found) => found,
                    None => false,
                }
            },
            _ => false,
        }
    }
}

} // verus!
