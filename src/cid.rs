//! The hierarchical control identifier: a domain and up to four numeric
//! path segments.
use vstd::prelude::*;

use crate::error::CmmError;
use crate::text::{
    decimal, decimals, dotted, join_dots, join_with_dots, lemma_decimal,
    lemma_split_dots_never_empty, lemma_split_join, lemma_u8_of_decimal, no_dot, parse_u8,
    split_dots, str_eq, u8_of_text,
};

verus! {

/// The five domains of the questionnaire, in their fixed order.
#[derive(Clone, Copy, Debug, PartialEq, Eq, Structural, Hash, PartialOrd, Ord)]
pub enum Domain {
    Business,
    People,
    Process,
    Technology,
    Services,
}

/// The domains in declaration order.
pub open spec fn all_domains() -> Seq<Domain> {
    seq![Domain::Business, Domain::People, Domain::Process, Domain::Technology, Domain::Services]
}

/// The domain whose name is exactly `t`, if any.
pub open spec fn domain_of_name(t: Seq<char>) -> Option<Domain> {
    if t == "Business"@ {
        Some(Domain::Business)
    } else if t == "People"@ {
        Some(Domain::People)
    } else if t == "Process"@ {
        Some(Domain::Process)
    } else if t == "Technology"@ {
        Some(Domain::Technology)
    } else if t == "Services"@ {
        Some(Domain::Services)
    } else {
        None
    }
}

impl Domain {
    /// Position of the domain in the fixed order.
    pub open spec fn spec_index(self) -> u8 {
        match self {
            Domain::Business => 0,
            Domain::People => 1,
            Domain::Process => 2,
            Domain::Technology => 3,
            Domain::Services => 4,
        }
    }

    /// The domain's name, as identifiers write it.
    pub open spec fn spec_name(self) -> Seq<char> {
        match self {
            Domain::Business => "Business"@,
            Domain::People => "People"@,
            Domain::Process => "Process"@,
            Domain::Technology => "Technology"@,
            Domain::Services => "Services"@,
        }
    }

    pub fn index(&self) -> (r: u8)
        ensures
            r == self.spec_index(),
    {
        match self {
            Domain::Business => 0,
            Domain::People => 1,
            Domain::Process => 2,
            Domain::Technology => 3,
            Domain::Services => 4,
        }
    }

    /// The domain at position `i` of the fixed order.
    pub fn from_index(i: u8) -> (r: Domain)
        requires
            i < 5,
        ensures
            r.spec_index() == i,
    {
        if i == 0 {
            Domain::Business
        } else if i == 1 {
            Domain::People
        } else if i == 2 {
            Domain::Process
        } else if i == 3 {
            Domain::Technology
        } else {
            Domain::Services
        }
    }

    pub fn name(&self) -> (r: &'static str)
        ensures
            r@ == self.spec_name(),
    {
        match self {
            Domain::Business => "Business",
            Domain::People => "People",
            Domain::Process => "Process",
            Domain::Technology => "Technology",
            Domain::Services => "Services",
        }
    }

    /// The domain named exactly `t` (case-sensitive).
    pub fn from_name(t: &str) -> (r: Option<Domain>)
        ensures
            r == domain_of_name(t@),
    {
        if str_eq(t, "Business") {
            Some(Domain::Business)
        } else if str_eq(t, "People") {
            Some(Domain::People)
        } else if str_eq(t, "Process") {
            Some(Domain::Process)
        } else if str_eq(t, "Technology") {
            Some(Domain::Technology)
        } else if str_eq(t, "Services") {
            Some(Domain::Services)
        } else {
            None
        }
    }

    /// All domains, in the fixed order.
    pub fn all() -> (r: Vec<Domain>)
        ensures
            r@ == all_domains(),
    {
        let r = vec![Domain::Business, Domain::People, Domain::Process, Domain::Technology, Domain::Services];
        assert(r@ =~= all_domains());
        r
    }
}


/// The key under which a CID is ordered and looked up: the domain's position,
/// then the four segments.
pub type CidKey = (u8, u8, u8, u8, u8);

/// A control identifier: a domain and four segments, where 0 marks an absent
/// segment.
#[derive(Clone, Copy, Debug, PartialEq, Eq, Structural, Hash, PartialOrd, Ord)]
pub struct CID {
    domain: Domain,
    s1: u8,
    s2: u8,
    s3: u8,
    s4: u8,
}

/// The present (non-zero) segments, in order.
pub open spec fn present(s: Seq<u8>) -> Seq<u8>
    decreases s.len(),
{
    if s.len() == 0 {
        Seq::<u8>::empty()
    } else if s[0] == 0 {
        present(s.drop_first())
    } else {
        seq![s[0]] + present(s.drop_first())
    }
}

/// One segment read from the parts of an identifier: part `k + 1` if it is
/// there, else absent.
pub open spec fn segment_at(parts: Seq<Seq<char>>, k: int) -> Result<u8, CmmError> {
    if k + 1 < parts.len() {
        match u8_of_text(parts[k + 1]) {
            None => Err(CmmError::CIDMalformed),
            Some(v) => if v == 0 {
                Err(CmmError::CIDInvalidZero)
            } else {
                Ok(v)
            },
        }
    } else {
        Ok(0)
    }
}

/// What parsing `s` gives: the first part names the domain, the next four
/// give the segments, and parts after those are ignored. The first failure
/// in reading order is the one reported.
pub open spec fn parse_cid(s: Seq<char>) -> Result<CID, CmmError> {
    let parts = split_dots(s);
    match domain_of_name(parts[0]) {
        None => Err(CmmError::CIDMissingDomain),
        Some(d) => match (
            segment_at(parts, 0),
            segment_at(parts, 1),
            segment_at(parts, 2),
            segment_at(parts, 3),
        ) {
            (Ok(a), Ok(b), Ok(c), Ok(e)) => Ok(CID::spec_new(d, a, b, c, e)),
            (Err(x), _, _, _) => Err(x),
            (_, Err(x), _, _) => Err(x),
            (_, _, Err(x), _) => Err(x),
            (_, _, _, Err(x)) => Err(x),
        },
    }
}

/// The number that part `k + 1` of a text stands for as segment `k`: its
/// value, or 0 where the text has no such part.
pub open spec fn token_value(s: Seq<char>, k: int) -> u8 {
    let parts = split_dots(s);
    if k + 1 < parts.len() {
        u8_of_text(parts[k + 1])->Some_0
    } else {
        0
    }
}

/// The rank of a text's domain, then the numbers its next four parts stand
/// for.
pub open spec fn text_key(s: Seq<char>) -> CidKey {
    (
        domain_of_name(split_dots(s)[0])->Some_0.spec_index(),
        token_value(s, 0),
        token_value(s, 1),
        token_value(s, 2),
        token_value(s, 3),
    )
}

/// Lexicographic order on keys.
pub open spec fn key_lt(a: CidKey, b: CidKey) -> bool {
    a.0 < b.0 || (a.0 == b.0 && (a.1 < b.1 || (a.1 == b.1 && (a.2 < b.2 || (a.2 == b.2 && (
    a.3 < b.3 || (a.3 == b.3 && a.4 < b.4)))))))
}

/// The domain at position `i` of the fixed order (the last one for any
/// larger `i`).
pub open spec fn domain_at(i: u8) -> Domain {
    if i == 0 {
        Domain::Business
    } else if i == 1 {
        Domain::People
    } else if i == 2 {
        Domain::Process
    } else if i == 3 {
        Domain::Technology
    } else {
        Domain::Services
    }
}

impl CID {
    /// The identifier with domain `d` and segments `a`, `b`, `c`, `e`.
    pub closed spec fn spec_new(d: Domain, a: u8, b: u8, c: u8, e: u8) -> CID {
        CID { domain: d, s1: a, s2: b, s3: c, s4: e }
    }

    /// An identifier is its domain and its four segments.
    pub proof fn lemma_spec_new(d: Domain, a: u8, b: u8, c: u8, e: u8)
        ensures
            CID::spec_new(d, a, b, c, e).spec_domain() == d,
            CID::spec_new(d, a, b, c, e).segs() == seq![a, b, c, e],
    {
    }

    /// Two identifiers with the same domain and segments are equal, and
    /// every identifier has four segments.
    pub proof fn lemma_parts(self, other: CID)
        ensures
            self.segs().len() == 4,
            self == CID::spec_new(self.spec_domain(), self.segs()[0], self.segs()[1], self.segs()[2], self.segs()[3]),
            self.spec_domain() == other.spec_domain() && self.segs() == other.segs() ==> self == other,
    {
        if self.segs() == other.segs() {
            assert(self.segs()[0] == other.segs()[0]);
            assert(self.segs()[1] == other.segs()[1]);
            assert(self.segs()[2] == other.segs()[2]);
            assert(self.segs()[3] == other.segs()[3]);
        }
    }

    pub closed spec fn spec_domain(self) -> Domain {
        self.domain
    }

    /// The first segment.
    pub open spec fn spec_aspect_id(self) -> u8 {
        self.segs()[0]
    }

    /// All four segments, absent ones as 0.
    pub closed spec fn segs(self) -> Seq<u8> {
        seq![self.s1, self.s2, self.s3, self.s4]
    }

    /// Segments are filled left to right: no present segment follows an
    /// absent one.
    pub open spec fn wf(self) -> bool {
        (self.segs()[0] == 0 ==> self.segs()[1] == 0) && (self.segs()[1] == 0 ==> self.segs()[2]
            == 0) && (self.segs()[2] == 0 ==> self.segs()[3] == 0)
    }

    /// The domain's position, then the four segments.
    pub open spec fn spec_key(self) -> CidKey {
        (self.spec_domain().spec_index(), self.segs()[0], self.segs()[1], self.segs()[2], self.segs()[3])
    }

    /// The canonical text: the domain's name, then each present segment
    /// after a dot.
    pub open spec fn text(self) -> Seq<char> {
        join_dots(seq![self.spec_domain().spec_name()] + decimals(present(self.segs())))
    }

    /// The present segments, joined with dots.
    pub open spec fn short_text(self) -> Seq<char> {
        join_dots(decimals(present(self.segs())))
    }

    /// Strict order: by domain, then by the segments as numbers.
    pub open spec fn spec_lt(self, other: CID) -> bool {
        key_lt(self.spec_key(), other.spec_key())
    }

    /// The identifier stored under key `k`.
    pub open spec fn spec_from_key(k: CidKey) -> CID {
        CID::spec_new(domain_at(k.0), k.1, k.2, k.3, k.4)
    }

    /// The key determines the identifier, and holds its domain and
    /// segments.
    pub proof fn lemma_key(self, other: CID)
        ensures
            self.spec_key() == other.spec_key() ==> self == other,
            self.spec_key().0 == self.spec_domain().spec_index(),
            self.spec_key().1 == self.spec_aspect_id(),
            self.spec_key().0 < 5,
    {
    }

    /// Parses `Domain.s1.s2.s3.s4`; fewer segments leave the rest absent,
    /// more than four are ignored.
    pub fn parse(s: &str) -> (r: Result<CID, CmmError>)
        ensures
            r == parse_cid(s@),
            r is Ok ==> r->Ok_0.wf(),
    {
        let parts = split_on_dots(s);
        proof {
            lemma_split_dots_never_empty(s@);
        }
        let domain = match Domain::from_name(parts[0].as_str()) {
            None => return Err(CmmError::CIDMissingDomain),
            Some(d) => d,
        };
        let a = match segment(&parts, 0) {
            Err(e) => return Err(e),
            Ok(v) => v,
        };
        let b = match segment(&parts, 1) {
            Err(e) => return Err(e),
            Ok(v) => v,
        };
        let c = match segment(&parts, 2) {
            Err(e) => return Err(e),
            Ok(v) => v,
        };
        let e = match segment(&parts, 3) {
            Err(x) => return Err(x),
            Ok(v) => v,
        };
        Ok(CID { domain, s1: a, s2: b, s3: c, s4: e })
    }

    /// The first segment: the aspect the control belongs to.
    pub fn aspect_id(&self) -> (r: u8)
        ensures
            r == self.spec_aspect_id(),
    {
        self.s1
    }

    pub fn domain(&self) -> (r: Domain)
        ensures
            r == self.spec_domain(),
    {
        self.domain
    }

    /// All four segments, absent ones as 0.
    pub fn segments(&self) -> (r: Vec<u8>)
        ensures
            r@ == self.segs(),
    {
        let r = vec![self.s1, self.s2, self.s3, self.s4];
        assert(r@ =~= self.segs());
        r
    }

    /// The depth of the identifier: how many segments are present.
    pub fn indent(&self) -> (r: usize)
        ensures
            r == present(self.segs()).len(),
    {
        present_segments(self).len()
    }

    /// The present segments joined with dots, without the domain.
    pub fn as_short_string(&self) -> (r: String)
        ensures
            r@ == self.short_text(),
    {
        let p = present_segments(self);
        join_with_dots(&p)
    }

    /// The canonical text of the identifier.
    pub fn to_string(&self) -> (r: String)
        ensures
            r@ == self.text(),
    {
        let p = present_segments(self);
        let mut r = String::from_str(self.domain.name());
        if p.len() > 0 {
            r.append(".");
            let tail = join_with_dots(&p);
            r.append(tail.as_str());
        } else {
            assert(decimals(p@) =~= Seq::<Seq<char>>::empty());
        }
        proof {
            reveal_strlit(".");
            lemma_join_dots_prepend(self.domain.spec_name(), decimals(present(self.segs())));
            assert(self.domain.spec_name() == self.spec_domain().spec_name());
            if p.len() > 0 {
                assert(r@ =~= self.domain.spec_name().push('.') + dotted(p@));
            }
        }
        r
    }

    pub fn key(&self) -> (r: CidKey)
        ensures
            r == self.spec_key(),
    {
        (self.domain.index(), self.s1, self.s2, self.s3, self.s4)
    }

    /// The identifier stored under a key.
    pub fn from_key(k: CidKey) -> (r: CID)
        requires
            k.0 < 5,
        ensures
            r.spec_key() == k,
            r == CID::spec_from_key(k),
    {
        CID { domain: Domain::from_index(k.0), s1: k.1, s2: k.2, s3: k.3, s4: k.4 }
    }

    /// Whether `self` sorts strictly before `other`.
    pub fn precedes(&self, other: &CID) -> (r: bool)
        ensures
            r == self.spec_lt(*other),
    {
        let a = self.key();
        let b = other.key();
        a.0 < b.0 || (a.0 == b.0 && (a.1 < b.1 || (a.1 == b.1 && (a.2 < b.2 || (a.2 == b.2 && (
        a.3 < b.3 || (a.3 == b.3 && a.4 < b.4)))))))
    }
}

impl std::str::FromStr for CID {
    type Err = CmmError;

    fn from_str(s: &str) -> Result<CID, CmmError> {
        CID::parse(s)
    }
}

/// The present segments of a CID.
fn present_segments(c: &CID) -> (r: Vec<u8>)
    ensures
        r@ == present(c.segs()),
{
    let s = c.segments();
    let mut r: Vec<u8> = Vec::new();
    let mut i: usize = 0;
    proof {
        assert(s@.subrange(0, 4) =~= s@);
        assert(r@ + present(s@) =~= present(s@));
    }
    while i < 4
        invariant
            s@ == c.segs(),
            i <= 4,
            present(s@) == r@ + present(s@.subrange(i as int, 4)),
        decreases 4 - i,
    {
        proof {
            assert(s@.subrange(i as int, 4).drop_first() =~= s@.subrange(i as int + 1, 4));
        }
        if s[i] != 0 {
            r.push(s[i]);
        }
        i = i + 1;
        proof {
            assert(present(s@) =~= r@ + present(s@.subrange(i as int, 4)));
        }
    }
    proof {
        assert(present(s@.subrange(4, 4)) =~= Seq::<u8>::empty());
        assert(present(s@) =~= r@);
    }
    r
}

/// Reads segment `k` from the parts of an identifier.
fn segment(parts: &Vec<String>, k: usize) -> (r: Result<u8, CmmError>)
    requires
        k < 4,
    ensures
        r == segment_at(parts@.map_values(|t: String| t@), k as int),
{
    if k + 1 < parts.len() {
        match parse_u8(parts[k + 1].as_str()) {
            None => Err(CmmError::CIDMalformed),
            Some(v) => if v == 0 {
                Err(CmmError::CIDInvalidZero)
            } else {
                Ok(v)
            },
        }
    } else {
        Ok(0)
    }
}

/// Splits `s` at every dot.
fn split_on_dots(s: &str) -> (r: Vec<String>)
    ensures
        r@.map_values(|t: String| t@) == split_dots(s@),
{
    let n = s.unicode_len();
    let mut parts: Vec<String> = Vec::new();
    let mut start: usize = 0;
    let mut i: usize = 0;
    proof {
        assert(s@.subrange(0, 0) =~= Seq::<char>::empty());
        assert(parts@.map_values(|t: String| t@).push(s@.subrange(0, 0)) =~= split_dots(s@.subrange(0, 0)));
    }
    while i < n
        invariant
            n == s@.len(),
            start <= i <= n,
            parts@.map_values(|t: String| t@).push(s@.subrange(start as int, i as int))
                == split_dots(s@.subrange(0, i as int)),
        decreases n - i,
    {
        let ghost prev = split_dots(s@.subrange(0, i as int));
        proof {
            assert(s@.subrange(0, i as int + 1).drop_last() =~= s@.subrange(0, i as int));
        }
        if s.get_char(i) == '.' {
            let part = String::from_str(s.substring_char(start, i));
            parts.push(part);
            start = i + 1;
            proof {
                assert(s@.subrange(start as int, i as int + 1) =~= Seq::<char>::empty());
                assert(parts@.map_values(|t: String| t@).push(s@.subrange(start as int, i as int + 1))
                    =~= prev.push(Seq::<char>::empty()));
            }
        } else {
            proof {
                assert(s@.subrange(start as int, i as int + 1) =~= s@.subrange(start as int, i as int).push(s@[i as int]));
                assert(parts@.map_values(|t: String| t@).push(s@.subrange(start as int, i as int + 1))
                    =~= prev.update(prev.len() - 1, prev.last().push(s@[i as int])));
            }
        }
        i = i + 1;
    }
    let last = String::from_str(s.substring_char(start, n));
    parts.push(last);
    proof {
        assert(s@.subrange(0, n as int) =~= s@);
        assert(parts@.map_values(|t: String| t@) =~= split_dots(s@));
    }
    parts
}

/// The canonical text of an identifier parses back to the same identifier.
pub proof fn lemma_parse_text(c: CID)
    requires
        c.wf(),
    ensures
        parse_cid(c.text()) == Ok::<CID, CmmError>(c),
{
    let d = c.spec_domain();
    let pres = present(c.segs());
    let parts = seq![d.spec_name()] + decimals(pres);
    lemma_present_of_wf(c);
    lemma_domain_names(d);
    assert forall|i: int| 0 <= i < parts.len() implies no_dot(#[trigger] parts[i]) by {
        if i > 0 {
            assert(parts[i] == decimal(pres[i - 1] as nat));
            lemma_decimal(pres[i - 1] as nat);
        }
    }
    lemma_split_join(parts);
    assert(parts[0] == d.spec_name());
    assert forall|k: int| 0 <= k < 4 implies segment_at(parts, k) == Ok::<u8, CmmError>(
        #[trigger] c.segs()[k],
    ) by {
        if k < pres.len() {
            assert(parts[k + 1] == decimal(pres[k] as nat));
            lemma_u8_of_decimal(pres[k]);
        }
    }
    assert(segment_at(parts, 0) == Ok::<u8, CmmError>(c.segs()[0]));
    assert(segment_at(parts, 1) == Ok::<u8, CmmError>(c.segs()[1]));
    assert(segment_at(parts, 2) == Ok::<u8, CmmError>(c.segs()[2]));
    assert(segment_at(parts, 3) == Ok::<u8, CmmError>(c.segs()[3]));
}

/// What a text parses to has the key its parts spell.
pub proof fn lemma_parse_key(s: Seq<char>)
    requires
        parse_cid(s) is Ok,
    ensures
        parse_cid(s)->Ok_0.spec_key() == text_key(s),
{
    let parts = split_dots(s);
    let d = domain_of_name(parts[0])->Some_0;
    CID::lemma_spec_new(d, token_value(s, 0), token_value(s, 1), token_value(s, 2), token_value(s, 3));
}

/// Identifiers read from texts are ordered by domain rank, then by their
/// segments compared as numbers, so `Services.1.2` comes before
/// `Services.1.11`.
pub proof fn lemma_parse_order(s1: Seq<char>, s2: Seq<char>)
    requires
        parse_cid(s1) is Ok,
        parse_cid(s2) is Ok,
    ensures
        parse_cid(s1)->Ok_0.spec_lt(parse_cid(s2)->Ok_0) <==> key_lt(text_key(s1), text_key(s2)),
{
    lemma_parse_key(s1);
    lemma_parse_key(s2);
}

/// Formatting what a canonical text parses to gives that text back: no
/// present segment is lost and no absent one is printed.
pub proof fn lemma_format_parse(s: Seq<char>, c: CID)
    requires
        c.wf(),
        s == c.text(),
    ensures
        parse_cid(s) is Ok,
        parse_cid(s)->Ok_0.text() == s,
{
    lemma_parse_text(c);
}

/// Under `wf`, the present segments are the non-zero ones, in front.
proof fn lemma_present_of_wf(c: CID)
    requires
        c.wf(),
    ensures
        present(c.segs()).len() <= 4,
        forall|k: int| 0 <= k < present(c.segs()).len() ==> present(c.segs())[k] == c.segs()[k]
            && c.segs()[k] != 0,
        forall|k: int| present(c.segs()).len() <= k < 4 ==> c.segs()[k] == 0,
{
    let s = c.segs();
    assert(s.drop_first().drop_first().drop_first().drop_first() =~= Seq::<u8>::empty());
    assert(s.drop_first()[0] == s[1]);
    assert(s.drop_first().drop_first()[0] == s[2]);
    assert(s.drop_first().drop_first().drop_first()[0] == s[3]);
    reveal_with_fuel(present, 5);
}

/// Domain names hold no dot and name their domain.
proof fn lemma_domain_names(d: Domain)
    ensures
        no_dot(d.spec_name()),
        domain_of_name(d.spec_name()) == Some(d),
{
    reveal_strlit("Business");
    reveal_strlit("People");
    reveal_strlit("Process");
    reveal_strlit("Technology");
    reveal_strlit("Services");
    assert("Business"@.len() == 8 && "People"@.len() == 6 && "Process"@.len() == 7);
    assert("Technology"@.len() == 10 && "Services"@.len() == 8);
    assert("Business"@[0] != "Services"@[0]);
}

/// Joining with a first part in front adds that part and a dot.
proof fn lemma_join_dots_prepend(head: Seq<char>, rest: Seq<Seq<char>>)
    ensures
        join_dots(seq![head] + rest) == if rest.len() == 0 {
            head
        } else {
            head.push('.') + join_dots(rest)
        },
    decreases rest.len(),
{
    let all = seq![head] + rest;
    if rest.len() == 0 {
        assert(all =~= seq![head]);
    } else if rest.len() == 1 {
        assert(all.drop_last() =~= seq![head]);
        assert(all.last() == rest[0]);
        assert(join_dots(seq![head]) == head);
    } else {
        assert(all.drop_last() =~= seq![head] + rest.drop_last());
        lemma_join_dots_prepend(head, rest.drop_last());
        assert(all.last() == rest.last());
        let a = head.push('.');
        let b = join_dots(rest.drop_last());
        assert((a + b).push('.') + rest.last() =~= a + (b.push('.') + rest.last()));
    }
}

} // verus!
