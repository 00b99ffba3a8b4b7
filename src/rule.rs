//! Connection rules: an ordered list of allow / deny entries, consulted from
//! the last entry to the first; the first entry is an allow-all or deny-all base.
use vstd::prelude::*;

use crate::model::{AddrView, Address, L4Protocol};
use crate::pattern::AddressPattern;

verus! {

#[derive(Debug, Clone, Copy, PartialEq, Eq)]
pub enum RulePattern<P> {
    Any,
    Specif(P),
}

impl<P> RulePattern<P> {
    pub fn is_any(&self) -> (r: bool)
        ensures
            r == (*self is Any),
    {
        match self {
            RulePattern::Any => true,
            RulePattern::Specif(_) => false,
        }
    }

    pub fn is_specif(&self) -> (r: bool)
        ensures
            r == (*self is Specif),
    {
        match self {
            RulePattern::Any => false,
            RulePattern::Specif(_) => true,
        }
    }
}

impl RulePattern<u16> {
    /// `Any` matches every port, `Specif(p)` only `p`.
    pub fn any_or(&self, port: u16) -> (r: bool)
        ensures
            r == match *self {
                RulePattern::Any => true,
                RulePattern::Specif(p) => p == port,
            },
    {
        match self {
            RulePattern::Any => true,
            RulePattern::Specif(p) => *p == port,
        }
    }
}

impl RulePattern<L4Protocol> {
    /// `Any` matches every protocol, `Specif(p)` only `p`.
    pub fn any_or(&self, protocol: L4Protocol) -> (r: bool)
        ensures
            r == match *self {
                RulePattern::Any => true,
                RulePattern::Specif(p) => p == protocol,
            },
    {
        match self {
            RulePattern::Any => true,
            RulePattern::Specif(p) => *p == protocol,
        }
    }
}

impl RulePattern<AddressPattern> {
    /// `Any` matches every address, `Specif(p)` those that `p` matches.
    pub fn is_match(&self, addr: &Address) -> (r: bool)
        requires
            self matches RulePattern::Specif(p) ==> p.wf(),
        ensures
            r == match *self {
                RulePattern::Any => true,
                RulePattern::Specif(p) => p.spec_match(addr@),
            },
    {
        match self {
            RulePattern::Any => true,
            RulePattern::Specif(p) => p.is_match(addr),
        }
    }
}

/// A conjunction of an address, a port and a protocol pattern.
#[derive(Debug, Clone, PartialEq, Eq)]
pub struct ConnectRulePattern {
    pub address: RulePattern<AddressPattern>,
    pub port: RulePattern<u16>,
    pub protocol: RulePattern<L4Protocol>,
}

impl ConnectRulePattern {
    pub open spec fn wf(&self) -> bool {
        self.address matches RulePattern::Specif(p) ==> p.wf()
    }

    /// A regular expression in the address pattern compiles.
    pub open spec fn spec_compiles(&self) -> bool {
        self.address matches RulePattern::Specif(p) ==> p.spec_compiles()
    }

    pub open spec fn spec_is_any(&self) -> bool {
        self.address is Any && self.port is Any && self.protocol is Any
    }

    /// All three parts match.
    pub open spec fn spec_match(&self, addr: AddrView, protocol: L4Protocol) -> bool {
        &&& match self.address {
            RulePattern::Any => true,
            RulePattern::Specif(p) => p.spec_match(addr),
        }
        &&& match self.port {
            RulePattern::Any => true,
            RulePattern::Specif(p) => p == addr.port(),
        }
        &&& match self.protocol {
            RulePattern::Any => true,
            RulePattern::Specif(p) => p == protocol,
        }
    }

    pub fn new(
        address: RulePattern<AddressPattern>,
        port: RulePattern<u16>,
        protocol: RulePattern<L4Protocol>,
    ) -> (r: Self)
        ensures
            r == (ConnectRulePattern { address, port, protocol }),
    {
        ConnectRulePattern { address, port, protocol }
    }

    /// The pattern that matches everything.
    pub fn any() -> (r: Self)
        ensures
            r.spec_is_any(),
            r.wf(),
    {
        ConnectRulePattern {
            address: RulePattern::Any,
            port: RulePattern::Any,
            protocol: RulePattern::Any,
        }
    }

    pub fn is_any(&self) -> (r: bool)
        ensures
            r == self.spec_is_any(),
    {
        self.address.is_any() && self.port.is_any() && self.protocol.is_any()
    }

    /// A copy of this pattern.
    pub fn duplicate(&self) -> (r: Self)
        ensures
            r == *self,
    {
        let address = match &self.address {
            RulePattern::Any => RulePattern::Any,
            RulePattern::Specif(p) => RulePattern::Specif(p.duplicate()),
        };
        ConnectRulePattern { address, port: self.port, protocol: self.protocol }
    }

    pub fn is_match(&self, addr: &Address, protocol: L4Protocol) -> (r: bool)
        requires
            self.wf(),
        ensures
            r == self.spec_match(addr@, protocol),
    {
        self.address.is_match(addr) && self.port.any_or(addr.port()) && self.protocol.any_or(
            protocol,
        )
    }
}

#[derive(Debug, Clone, PartialEq, Eq)]
pub enum ConnectRuleEntry {
    Allow(ConnectRulePattern),
    Deny(ConnectRulePattern),
}

impl ConnectRuleEntry {
    pub open spec fn spec_pattern(&self) -> ConnectRulePattern {
        match self {
            ConnectRuleEntry::Allow(p) => *p,
            ConnectRuleEntry::Deny(p) => *p,
        }
    }

    /// The pattern of the entry, whether it allows or denies.
    pub fn pattern(&self) -> (r: &ConnectRulePattern)
        ensures
            *r == self.spec_pattern(),
    {
        match self {
            ConnectRuleEntry::Allow(p) => p,
            ConnectRuleEntry::Deny(p) => p,
        }
    }
}

/// The decision of the last entry of `rules` that matches, if any.
pub open spec fn rules_decide(rules: Seq<ConnectRuleEntry>, addr: AddrView, protocol: L4Protocol) -> Option<bool>
    decreases rules.len(),
{
    if rules.len() == 0 {
        None
    } else if rules.last().spec_pattern().spec_match(addr, protocol) {
        Some(rules.last() is Allow)
    } else {
        rules_decide(rules.drop_last(), addr, protocol)
    }
}

/// A list of entries that a rule may hold: a base entry that matches
/// everything, then any entries, each with a well-formed pattern.
pub open spec fn rules_wf(rules: Seq<ConnectRuleEntry>) -> bool {
    &&& rules.len() >= 1
    &&& rules[0].spec_pattern().spec_is_any()
    &&& forall|i: int| 0 <= i < rules.len() ==> (#[trigger] rules[i]).spec_pattern().wf()
}

/// Connection rules.
///
/// The first entry is the base rule (allow all or deny all); later entries
/// take precedence over earlier ones.
#[derive(Debug, Clone)]
pub struct ConnectRule {
    rules: Vec<ConnectRuleEntry>,
}

impl View for ConnectRule {
    type V = Seq<ConnectRuleEntry>;

    closed spec fn view(&self) -> Seq<ConnectRuleEntry> {
        self.rules@
    }
}

/// Why a list of entries does not make a rule.
#[derive(Debug, Clone, Copy, PartialEq, Eq, Structural)]
pub enum RuleError {
    /// The list is empty.
    NoBaseRule,
    /// The first entry does not match everything.
    BaseRuleNotAny,
    /// An address pattern has a prefix longer than its address.
    InvalidPrefix,
    /// A regular expression pattern does not compile.
    InvalidRegex,
}

/// Every regular expression among the entries' patterns compiles.
pub open spec fn regexes_compile(rules: Seq<ConnectRuleEntry>) -> bool {
    forall|i: int| 0 <= i < rules.len() ==> (#[trigger] rules[i]).spec_pattern().spec_compiles()
}

impl ConnectRule {
    pub open spec fn wf(&self) -> bool {
        rules_wf(self@)
    }

    /// Whether the rule permits connecting to `addr` over `protocol`.
    pub open spec fn spec_check(&self, addr: AddrView, protocol: L4Protocol) -> bool {
        rules_decide(self@, addr, protocol) == Some(true)
    }

    /// Allow all connections.
    pub fn any() -> (r: Self)
        ensures
            r.wf(),
            r@ == seq![ConnectRuleEntry::Allow(r@[0].spec_pattern())],
            r@[0].spec_pattern().spec_is_any(),
    {
        ConnectRule { rules: vec![ConnectRuleEntry::Allow(ConnectRulePattern::any())] }
    }

    /// Deny all connections.
    pub fn none() -> (r: Self)
        ensures
            r.wf(),
            r@ == seq![ConnectRuleEntry::Deny(r@[0].spec_pattern())],
            r@[0].spec_pattern().spec_is_any(),
    {
        ConnectRule { rules: vec![ConnectRuleEntry::Deny(ConnectRulePattern::any())] }
    }

    /// The base rule allows everything.
    pub fn is_any(&self) -> (r: bool)
        requires
            self.wf(),
        ensures
            r == (self@[0] is Allow),
    {
        match &self.rules[0] {
            ConnectRuleEntry::Allow(pat) => pat.is_any(),
            ConnectRuleEntry::Deny(_) => false,
        }
    }

    /// A copy of this rule.
    pub fn duplicate(&self) -> (r: Self)
        ensures
            r@ == self@,
    {
        let mut rules: Vec<ConnectRuleEntry> = Vec::new();
        let mut i: usize = 0;
        while i < self.rules.len()
            invariant
                i <= self@.len(),
                rules@ == self@.subrange(0, i as int),
            decreases self@.len() - i,
        {
            let e = match &self.rules[i] {
                ConnectRuleEntry::Allow(p) => ConnectRuleEntry::Allow(p.duplicate()),
                ConnectRuleEntry::Deny(p) => ConnectRuleEntry::Deny(p.duplicate()),
            };
            rules.push(e);
            i = i + 1;
        }
        assert(rules@ =~= self@);
        ConnectRule { rules }
    }

    /// Makes a rule of a list of entries. The first entry must allow all or
    /// deny all, every IP prefix must fit its address, and every regular
    /// expression must compile.
    pub fn from_entries(entries: Vec<ConnectRuleEntry>) -> (r: Result<Self, RuleError>)
        ensures
            entries@.len() == 0 ==> r == Err::<Self, RuleError>(RuleError::NoBaseRule),
            entries@.len() > 0 && !entries@[0].spec_pattern().spec_is_any() ==> r == Err::<
                Self,
                RuleError,
            >(RuleError::BaseRuleNotAny),
            entries@.len() > 0 && entries@[0].spec_pattern().spec_is_any() && !(forall|i: int|
                0 <= i < entries@.len() ==> (#[trigger] entries@[i]).spec_pattern().wf()) ==> r
                == Err::<Self, RuleError>(RuleError::InvalidPrefix),
            rules_wf(entries@) && !regexes_compile(entries@) ==> r == Err::<Self, RuleError>(
                RuleError::InvalidRegex,
            ),
            r is Ok <==> rules_wf(entries@) && regexes_compile(entries@),
            r matches Ok(rule) ==> rule@ == entries@,
    {
        if entries.len() == 0 {
            return Err(RuleError::NoBaseRule);
        }
        if !entries[0].pattern().is_any() {
            return Err(RuleError::BaseRuleNotAny);
        }
        let mut i: usize = 0;
        while i < entries.len()
            invariant
                i <= entries@.len(),
                entries@.len() > 0,
                entries@[0].spec_pattern().spec_is_any(),
                forall|j: int| 0 <= j < i ==> (#[trigger] entries@[j]).spec_pattern().wf(),
            decreases entries@.len() - i,
        {
            let ok = match &entries[i].pattern().address {
                RulePattern::Any => true,
                RulePattern::Specif(p) => match p {
                    AddressPattern::IpAddr { addr: crate::model::IpAddr::V4(_), prefix } => *prefix <= 32,
                    AddressPattern::IpAddr { addr: crate::model::IpAddr::V6(_), prefix } => *prefix <= 128,
                    AddressPattern::Domain(_) => true,
                },
            };
            if !ok {
                return Err(RuleError::InvalidPrefix);
            }
            i = i + 1;
        }
        let mut k: usize = 0;
        while k < entries.len()
            invariant
                k <= entries@.len(),
                rules_wf(entries@),
                forall|j: int| 0 <= j < k ==> (#[trigger] entries@[j]).spec_pattern().spec_compiles(),
            decreases entries@.len() - k,
        {
            let ok = match &entries[k].pattern().address {
                RulePattern::Any => true,
                RulePattern::Specif(p) => p.compiles(),
            };
            if !ok {
                return Err(RuleError::InvalidRegex);
            }
            k = k + 1;
        }
        Ok(ConnectRule { rules: entries })
    }

    /// Appends an entry that allows what the three patterns match.
    pub fn allow(
        &mut self,
        addr: RulePattern<AddressPattern>,
        port: RulePattern<u16>,
        protocol: RulePattern<L4Protocol>,
    )
        requires
            old(self).wf(),
            addr matches RulePattern::Specif(p) ==> p.wf(),
        ensures
            final(self).wf(),
            final(self)@ == old(self)@.push(
                ConnectRuleEntry::Allow(ConnectRulePattern { address: addr, port, protocol }),
            ),
    {
        self.rules.push(ConnectRuleEntry::Allow(ConnectRulePattern::new(addr, port, protocol)));
        proof {
            assert(forall|i: int| 0 <= i < old(self)@.len() ==> self@[i] == old(self)@[i]);
        }
    }

    /// Appends an entry that denies what the three patterns match.
    pub fn deny(
        &mut self,
        addr: RulePattern<AddressPattern>,
        port: RulePattern<u16>,
        protocol: RulePattern<L4Protocol>,
    )
        requires
            old(self).wf(),
            addr matches RulePattern::Specif(p) ==> p.wf(),
        ensures
            final(self).wf(),
            final(self)@ == old(self)@.push(
                ConnectRuleEntry::Deny(ConnectRulePattern { address: addr, port, protocol }),
            ),
    {
        self.rules.push(ConnectRuleEntry::Deny(ConnectRulePattern::new(addr, port, protocol)));
        proof {
            assert(forall|i: int| 0 <= i < old(self)@.len() ==> self@[i] == old(self)@[i]);
        }
    }

    /// Whether connecting to `addr` over `protocol` is permitted: the last
    /// entry whose pattern matches decides.
    pub fn check(&self, addr: Address, protocol: L4Protocol) -> (r: bool)
        requires
            self.wf(),
        ensures
            r == self.spec_check(addr@, protocol),
            Some(r) == rules_decide(self@, addr@, protocol),
    {
        proof {
            lemma_rules_total(self@, addr@, protocol);
        }
        let mut i: usize = self.rules.len();
        assert(self@.subrange(0, i as int) =~= self@);
        while i > 0
            invariant
                self.wf(),
                i <= self@.len(),
                rules_decide(self@, addr@, protocol) == rules_decide(
                    self@.subrange(0, i as int),
                    addr@,
                    protocol,
                ),
            decreases i,
        {
            let ghost prefix = self@.subrange(0, i as int);
            assert(prefix.drop_last() =~= self@.subrange(0, i - 1));
            match &self.rules[i - 1] {
                ConnectRuleEntry::Allow(pat) => {
                    if pat.is_match(&addr, protocol) {
                        return true;
                    }
                },
                ConnectRuleEntry::Deny(pat) => {
                    if pat.is_match(&addr, protocol) {
                        return false;
                    }
                },
            }
            i = i - 1;
        }
        proof {
            assert(self@.subrange(0, 0) =~= Seq::<ConnectRuleEntry>::empty());
        }
        false
    }
}

/// Evaluation is total: a well-formed rule decides every address and protocol.
pub proof fn lemma_rules_total(rules: Seq<ConnectRuleEntry>, addr: AddrView, protocol: L4Protocol)
    requires
        rules_wf(rules),
    ensures
        rules_decide(rules, addr, protocol) is Some,
    decreases rules.len(),
{
    if rules.len() > 1 && !rules.last().spec_pattern().spec_match(addr, protocol) {
        let rest = rules.drop_last();
        assert(rest[0] == rules[0]);
        assert forall|i: int| 0 <= i < rest.len() implies (#[trigger] rest[i]).spec_pattern().wf() by {
            assert(rest[i] == rules[i]);
        }
        lemma_rules_total(rest, addr, protocol);
    }
}

/// Totality: `check` on a well-formed rule gives an answer for every
/// address and protocol, and that answer is the decision of some entry.
pub proof fn lemma_check_total(rule: ConnectRule, addr: AddrView, protocol: L4Protocol)
    requires
        rule.wf(),
    ensures
        rules_decide(rule@, addr, protocol) is Some,
{
    lemma_rules_total(rule@, addr, protocol);
}

/// Last wins: after appending `Allow(p)` and then `Deny(p)` to any rule,
/// every address and protocol that `p` matches is denied, whatever came before.
pub proof fn lemma_allow_then_deny_denies(
    rules: Seq<ConnectRuleEntry>,
    p: ConnectRulePattern,
    addr: AddrView,
    protocol: L4Protocol,
)
    requires
        p.spec_match(addr, protocol),
    ensures
        rules_decide(
            rules.push(ConnectRuleEntry::Allow(p)).push(ConnectRuleEntry::Deny(p)),
            addr,
            protocol,
        ) == Some(false),
{
}

} // verus!
