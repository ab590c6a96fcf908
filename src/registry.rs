//! Storage of parsers by the type of the parser.
use vstd::prelude::*;

use core::marker::PhantomData;

use crate::duration::DurationParser;
use crate::network::IpParser;
use crate::primitives::{
    I16Parser, I32Parser, I64Parser, I8Parser, U16Parser, U32Parser, U64Parser, U8Parser,
};
use crate::text::StringParser;
use crate::{TypeParseResult, TypeParser};

verus! {

/// The identity of a parser type that storage can hold.
#[derive(Clone, Copy, Debug, PartialEq, Eq, Structural)]
pub enum ParserKind {
    U8,
    U16,
    U32,
    U64,
    I8,
    I16,
    I32,
    I64,
    Ip,
    Duration,
    Text,
}

/// A parser of any type that storage can hold.
pub enum AnyParser {
    U8(U8Parser),
    U16(U16Parser),
    U32(U32Parser),
    U64(U64Parser),
    I8(I8Parser),
    I16(I16Parser),
    I32(I32Parser),
    I64(I64Parser),
    Ip(IpParser),
    Duration(DurationParser),
    Text(StringParser),
}

impl AnyParser {
    /// The type of the parser held.
    pub open spec fn spec_kind(&self) -> ParserKind {
        match self {
            AnyParser::U8(_) => ParserKind::U8,
            AnyParser::U16(_) => ParserKind::U16,
            AnyParser::U32(_) => ParserKind::U32,
            AnyParser::U64(_) => ParserKind::U64,
            AnyParser::I8(_) => ParserKind::I8,
            AnyParser::I16(_) => ParserKind::I16,
            AnyParser::I32(_) => ParserKind::I32,
            AnyParser::I64(_) => ParserKind::I64,
            AnyParser::Ip(_) => ParserKind::Ip,
            AnyParser::Duration(_) => ParserKind::Duration,
            AnyParser::Text(_) => ParserKind::Text,
        }
    }

    /// The type of the parser held.
    pub fn kind(&self) -> (k: ParserKind)
        ensures
            k == self.spec_kind(),
    {
        match self {
            AnyParser::U8(_) => ParserKind::U8,
            AnyParser::U16(_) => ParserKind::U16,
            AnyParser::U32(_) => ParserKind::U32,
            AnyParser::U64(_) => ParserKind::U64,
            AnyParser::I8(_) => ParserKind::I8,
            AnyParser::I16(_) => ParserKind::I16,
            AnyParser::I32(_) => ParserKind::I32,
            AnyParser::I64(_) => ParserKind::I64,
            AnyParser::Ip(_) => ParserKind::Ip,
            AnyParser::Duration(_) => ParserKind::Duration,
            AnyParser::Text(_) => ParserKind::Text,
        }
    }
}

/// A parser type that storage can hold, under its own kind.
pub trait StoredParser: Sized {
    spec fn spec_kind() -> ParserKind;

    /// The kind of this parser type.
    fn kind() -> (k: ParserKind)
        ensures
            k == Self::spec_kind(),
    ;

    /// The parser, ready to be stored.
    fn into_any(self) -> (a: AnyParser)
        ensures
            a.spec_kind() == Self::spec_kind(),
    ;

    /// The parser held by `a`, where it is of this type.
    fn from_any(a: &AnyParser) -> (r: Option<&Self>)
        ensures
            r is Some <==> a.spec_kind() == Self::spec_kind(),
    ;
}

impl StoredParser for U8Parser {
    open spec fn spec_kind() -> ParserKind {
        ParserKind::U8
    }

    fn kind() -> (k: ParserKind) {
        ParserKind::U8
    }

    fn into_any(self) -> (a: AnyParser) {
        AnyParser::U8(self)
    }

    fn from_any(a: &AnyParser) -> (r: Option<&U8Parser>) {
        match a {
            AnyParser::U8(p) => Some(p),
            _ => None,
        }
    }
}

impl StoredParser for U16Parser {
    open spec fn spec_kind() -> ParserKind {
        ParserKind::U16
    }

    fn kind() -> (k: ParserKind) {
        ParserKind::U16
    }

    fn into_any(self) -> (a: AnyParser) {
        AnyParser::U16(self)
    }

    fn from_any(a: &AnyParser) -> (r: Option<&U16Parser>) {
        match a {
            AnyParser::U16(p) => Some(p),
            _ => None,
        }
    }
}

impl StoredParser for U32Parser {
    open spec fn spec_kind() -> ParserKind {
        ParserKind::U32
    }

    fn kind() -> (k: ParserKind) {
        ParserKind::U32
    }

    fn into_any(self) -> (a: AnyParser) {
        AnyParser::U32(self)
    }

    fn from_any(a: &AnyParser) -> (r: Option<&U32Parser>) {
        match a {
            AnyParser::U32(p) => Some(p),
            _ => None,
        }
    }
}

impl StoredParser for U64Parser {
    open spec fn spec_kind() -> ParserKind {
        ParserKind::U64
    }

    fn kind() -> (k: ParserKind) {
        ParserKind::U64
    }

    fn into_any(self) -> (a: AnyParser) {
        AnyParser::U64(self)
    }

    fn from_any(a: &AnyParser) -> (r: Option<&U64Parser>) {
        match a {
            AnyParser::U64(p) => Some(p),
            _ => None,
        }
    }
}

impl StoredParser for I8Parser {
    open spec fn spec_kind() -> ParserKind {
        ParserKind::I8
    }

    fn kind() -> (k: ParserKind) {
        ParserKind::I8
    }

    fn into_any(self) -> (a: AnyParser) {
        AnyParser::I8(self)
    }

    fn from_any(a: &AnyParser) -> (r: Option<&I8Parser>) {
        match a {
            AnyParser::I8(p) => Some(p),
            _ => None,
        }
    }
}

impl StoredParser for I16Parser {
    open spec fn spec_kind() -> ParserKind {
        ParserKind::I16
    }

    fn kind() -> (k: ParserKind) {
        ParserKind::I16
    }

    fn into_any(self) -> (a: AnyParser) {
        AnyParser::I16(self)
    }

    fn from_any(a: &AnyParser) -> (r: Option<&I16Parser>) {
        match a {
            AnyParser::I16(p) => Some(p),
            _ => None,
        }
    }
}

impl StoredParser for I32Parser {
    open spec fn spec_kind() -> ParserKind {
        ParserKind::I32
    }

    fn kind() -> (k: ParserKind) {
        ParserKind::I32
    }

    fn into_any(self) -> (a: AnyParser) {
        AnyParser::I32(self)
    }

    fn from_any(a: &AnyParser) -> (r: Option<&I32Parser>) {
        match a {
            AnyParser::I32(p) => Some(p),
            _ => None,
        }
    }
}

impl StoredParser for I64Parser {
    open spec fn spec_kind() -> ParserKind {
        ParserKind::I64
    }

    fn kind() -> (k: ParserKind) {
        ParserKind::I64
    }

    fn into_any(self) -> (a: AnyParser) {
        AnyParser::I64(self)
    }

    fn from_any(a: &AnyParser) -> (r: Option<&I64Parser>) {
        match a {
            AnyParser::I64(p) => Some(p),
            _ => None,
        }
    }
}

impl StoredParser for IpParser {
    open spec fn spec_kind() -> ParserKind {
        ParserKind::Ip
    }

    fn kind() -> (k: ParserKind) {
        ParserKind::Ip
    }

    fn into_any(self) -> (a: AnyParser) {
        AnyParser::Ip(self)
    }

    fn from_any(a: &AnyParser) -> (r: Option<&IpParser>) {
        match a {
            AnyParser::Ip(p) => Some(p),
            _ => None,
        }
    }
}

impl StoredParser for DurationParser {
    open spec fn spec_kind() -> ParserKind {
        ParserKind::Duration
    }

    fn kind() -> (k: ParserKind) {
        ParserKind::Duration
    }

    fn into_any(self) -> (a: AnyParser) {
        AnyParser::Duration(self)
    }

    fn from_any(a: &AnyParser) -> (r: Option<&DurationParser>) {
        match a {
            AnyParser::Duration(p) => Some(p),
            _ => None,
        }
    }
}

impl StoredParser for StringParser {
    open spec fn spec_kind() -> ParserKind {
        ParserKind::Text
    }

    fn kind() -> (k: ParserKind) {
        ParserKind::Text
    }

    fn into_any(self) -> (a: AnyParser) {
        AnyParser::Text(self)
    }

    fn from_any(a: &AnyParser) -> (r: Option<&StringParser>) {
        match a {
            AnyParser::Text(p) => Some(p),
            _ => None,
        }
    }
}

/// The key under which storage holds parsers of type `P`.
pub struct TypeParserKey<P> {
    phantom: PhantomData<P>,
}

impl<P: StoredParser> TypeParserKey<P> {
    pub fn new() -> Self {
        TypeParserKey { phantom: PhantomData }
    }

    /// The kind that this key stands for.
    pub fn kind(&self) -> (k: ParserKind)
        ensures
            k == P::spec_kind(),
    {
        P::kind()
    }
}

/// The kinds of the integer parsers.
pub open spec fn primitive_kinds() -> Set<ParserKind> {
    set![
        ParserKind::U8,
        ParserKind::U16,
        ParserKind::U32,
        ParserKind::U64,
        ParserKind::I8,
        ParserKind::I16,
        ParserKind::I32,
        ParserKind::I64,
    ]
}

/// The kinds of the address, duration and string parsers.
pub open spec fn standard_kinds() -> Set<ParserKind> {
    set![ParserKind::Ip, ParserKind::Duration, ParserKind::Text]
}

/// At most one parser of each type, found by that type.
pub struct ParserStorage {
    entries: Vec<AnyParser>,
}

impl View for ParserStorage {
    type V = Set<ParserKind>;

    /// The kinds of the parsers held.
    closed spec fn view(&self) -> Set<ParserKind> {
        Set::new(|k: ParserKind| exists|i: int| 0 <= i < self.entries@.len() && #[trigger] self.entries@[i].spec_kind() == k)
    }
}

impl ParserStorage {
    /// No two entries hold parsers of the same type.
    pub closed spec fn wf(&self) -> bool {
        forall|i: int, j: int|
            0 <= i < j < self.entries@.len() ==> #[trigger] self.entries@[i].spec_kind()
                != #[trigger] self.entries@[j].spec_kind()
    }

    /// Storage with no parser in it.
    pub fn empty() -> (s: ParserStorage)
        ensures
            s.wf(),
            s@ == Set::<ParserKind>::empty(),
    {
        let s = ParserStorage { entries: Vec::new() };
        assert(s@ =~= Set::<ParserKind>::empty());
        s
    }

    /// Storage with every parser of this library.
    pub fn new() -> (s: ParserStorage)
        ensures
            s.wf(),
            s@ == primitive_kinds() + standard_kinds(),
    {
        Self::with_bundles(true, true)
    }

    /// Storage with the integer parsers where `primitives` holds, and the
    /// address, duration and string parsers where `standard` holds.
    pub fn with_bundles(primitives: bool, standard: bool) -> (s: ParserStorage)
        ensures
            s.wf(),
            s@ == (if primitives { primitive_kinds() } else { Set::empty() }) + (if standard {
                standard_kinds()
            } else {
                Set::empty()
            }),
    {
        let mut s = Self::empty();
        if primitives {
            s.insert(U8Parser);
            s.insert(U16Parser);
            s.insert(U32Parser);
            s.insert(U64Parser);
            s.insert(I8Parser);
            s.insert(I16Parser);
            s.insert(I32Parser);
            s.insert(I64Parser);
        }
        let ghost mid = s@;
        if standard {
            s.insert(IpParser);
            s.insert(DurationParser);
            s.insert(StringParser);
        }
        proof {
            assert(mid =~= (if primitives { primitive_kinds() } else { Set::empty() }));
            assert(s@ =~= mid + (if standard { standard_kinds() } else { Set::empty() }));
        }
        s
    }

    /// Stores `p`, in place of any parser of its type stored before.
    pub fn insert<P: StoredParser>(&mut self, p: P)
        requires
            old(self).wf(),
        ensures
            final(self).wf(),
            final(self)@ == old(self)@.insert(P::spec_kind()),
    {
        let k = P::kind();
        let a = p.into_any();
        let mut i: usize = 0;
        while i < self.entries.len()
            invariant
                self.wf(),
                self == old(self),
                a.spec_kind() == k,
                k == P::spec_kind(),
                i <= self.entries@.len(),
                forall|j: int| 0 <= j < i ==> #[trigger] self.entries@[j].spec_kind() != k,
            decreases self.entries@.len() - i,
        {
            if self.entries[i].kind() == k {
                let ghost before = self.entries@;
                assert(before[i as int].spec_kind() == k);
                self.entries.set(i, a);
                proof {
                    assert(self.entries@ == before.update(i as int, a));
                    assert forall|j: int| 0 <= j < before.len() implies #[trigger] self.entries@[j].spec_kind()
                        == before[j].spec_kind() by {}
                    assert forall|x: ParserKind| self@.contains(x) <==> old(self)@.insert(k).contains(x) by {
                        if old(self)@.contains(x) {
                            let w = choose|w: int| 0 <= w < before.len() && #[trigger] before[w].spec_kind() == x;
                            assert(self.entries@[w].spec_kind() == x);
                        }
                        if x == k {
                            assert(self.entries@[i as int].spec_kind() == x);
                        }
                        if self@.contains(x) {
                            let w = choose|w: int| 0 <= w < self.entries@.len() && #[trigger] self.entries@[w].spec_kind() == x;
                            if w != i {
                                assert(before[w].spec_kind() == x);
                            }
                        }
                    }
                    assert(self@ =~= old(self)@.insert(k));
                }
                return;
            }
            i += 1;
        }
        let ghost before = self.entries@;
        self.entries.push(a);
        proof {
            assert forall|x: ParserKind| self@.contains(x) <==> old(self)@.insert(k).contains(x) by {
                if old(self)@.contains(x) {
                    let w = choose|w: int| 0 <= w < before.len() && #[trigger] before[w].spec_kind() == x;
                    assert(self.entries@[w].spec_kind() == x);
                }
                if x == k {
                    assert(self.entries@[before.len() as int].spec_kind() == x);
                }
                if self@.contains(x) {
                    let w = choose|w: int| 0 <= w < self.entries@.len() && #[trigger] self.entries@[w].spec_kind() == x;
                    if w < before.len() {
                        assert(before[w].spec_kind() == x);
                    }
                }
            }
            assert(self@ =~= old(self)@.insert(k));
        }
    }

    /// The stored parser of the type `kind`, if there is one.
    pub fn find(&self, kind: ParserKind) -> (r: Option<&AnyParser>)
        requires
            self.wf(),
        ensures
            r is Some <==> self@.contains(kind),
            r matches Some(p) ==> p.spec_kind() == kind,
    {
        let mut i: usize = 0;
        while i < self.entries.len()
            invariant
                i <= self.entries@.len(),
                forall|j: int| 0 <= j < i ==> #[trigger] self.entries@[j].spec_kind() != kind,
            decreases self.entries@.len() - i,
        {
            if self.entries[i].kind() == kind {
                assert(self@.contains(kind));
                return Some(&self.entries[i]);
            }
            i += 1;
        }
        None
    }

    /// The stored parser of type `P`, if there is one.
    pub fn get<P: StoredParser>(&self) -> (r: Option<&P>)
        requires
            self.wf(),
        ensures
            r is Some <==> self@.contains(P::spec_kind()),
    {
        let mut i: usize = 0;
        while i < self.entries.len()
            invariant
                i <= self.entries@.len(),
                forall|j: int| 0 <= j < i ==> #[trigger] self.entries@[j].spec_kind() != P::spec_kind(),
            decreases self.entries@.len() - i,
        {
            if let Some(p) = P::from_any(&self.entries[i]) {
                assert(self@.contains(P::spec_kind()));
                return Some(p);
            }
            i += 1;
        }
        None
    }
}

/// The entry point of a command layer: resolves parsers by their type and applies them.
pub struct Parser {
    storage: ParserStorage,
}

impl Parser {
    /// Whether the storage is well formed.
    pub closed spec fn wf(&self) -> bool {
        self.storage.wf()
    }

    /// The kinds of the parsers available.
    pub closed spec fn kinds(&self) -> Set<ParserKind> {
        self.storage@
    }

    /// A parser that resolves parsers from `storage`.
    pub fn with_storage(storage: ParserStorage) -> (r: Parser)
        requires
            storage.wf(),
        ensures
            r.wf(),
            r.kinds() == storage@,
    {
        Parser { storage }
    }

    /// The parser of type `P`, if one is available.
    pub fn parser<P: StoredParser>(&self) -> (r: Option<&P>)
        requires
            self.wf(),
        ensures
            r is Some <==> self.kinds().contains(P::spec_kind()),
    {
        self.storage.get::<P>()
    }

    /// The parser of the type `kind`, if one is available.
    pub fn resolve(&self, kind: ParserKind) -> (r: Option<&AnyParser>)
        requires
            self.wf(),
        ensures
            r is Some <==> self.kinds().contains(kind),
            r matches Some(p) ==> p.spec_kind() == kind,
    {
        self.storage.find(kind)
    }

    /// Applies the parser of type `P` to `src`; `None` where no such parser is available.
    pub fn parse<P: StoredParser + TypeParser>(&self, ctx: &P::Context, src: &str) -> (r: Option<
        TypeParseResult<P::Type>,
    >)
        requires
            self.wf(),
        ensures
            r is None <==> !self.kinds().contains(P::spec_kind()),
            r matches Some(x) ==> exists|p: P| #[trigger] p.parses_as(ctx, src@, x),
            r matches Some(Ok((_, n))) ==> n <= src@.len(),
    {
        match self.storage.get::<P>() {
            Some(p) => Some(p.parse(ctx, src)),
            None => None,
        }
    }
}

} // verus!
