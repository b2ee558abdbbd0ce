//! Handlers that take their arguments in any order: each argument type
//! knows how to build itself from a piece of a comma-separated request, and
//! a tuple of argument types splits the request and builds each element
//! from its piece.
use vstd::prelude::*;
use std::marker::PhantomData;

verus! {

/// `s` cut at every `sep`: the pieces between the separators, in order.
/// An empty `s` is one empty piece, and so is the room after a trailing
/// separator.
pub open spec fn split_on(s: Seq<char>, sep: char) -> Seq<Seq<char>>
    decreases s.len(),
{
    if s.len() == 0 {
        seq![Seq::<char>::empty()]
    } else {
        let rest = split_on(s.drop_last(), sep);
        if s.last() == sep {
            rest.push(Seq::<char>::empty())
        } else {
            rest.update(rest.len() - 1, rest.last().push(s.last()))
        }
    }
}

/// There is always at least one piece.
pub proof fn lemma_split_on_nonempty(s: Seq<char>, sep: char)
    ensures
        split_on(s, sep).len() >= 1,
    decreases s.len(),
{
    if s.len() > 0 {
        lemma_split_on_nonempty(s.drop_last(), sep);
    }
}

/// The pieces joined back together with `sep` between neighbours.
pub open spec fn join_with(pieces: Seq<Seq<char>>, sep: char) -> Seq<char>
    decreases pieces.len(),
{
    if pieces.len() <= 1 {
        if pieces.len() == 0 {
            Seq::<char>::empty()
        } else {
            pieces[0]
        }
    } else {
        join_with(pieces.drop_last(), sep) + seq![sep] + pieces.last()
    }
}

/// Cutting `s` at every `sep` loses nothing: joining the pieces with `sep`
/// gives `s` back, and no piece holds a `sep`.
pub proof fn lemma_split_on_join(s: Seq<char>, sep: char)
    ensures
        join_with(split_on(s, sep), sep) == s,
        forall|i: int| 0 <= i < split_on(s, sep).len() ==> !(#[trigger] split_on(s, sep)[i]).contains(sep),
    decreases s.len(),
{
    lemma_split_on_nonempty(s, sep);
    if s.len() == 0 {
        assert(split_on(s, sep)[0] =~= Seq::<char>::empty());
        assert(s =~= Seq::<char>::empty());
    } else {
        let init = s.drop_last();
        let c = s.last();
        let rest = split_on(init, sep);
        lemma_split_on_join(init, sep);
        lemma_split_on_nonempty(init, sep);
        let k = rest.len() - 1;
        if c == sep {
            let pieces = rest.push(Seq::<char>::empty());
            assert(pieces.drop_last() =~= rest);
            assert(join_with(pieces, sep) =~= s);
            assert forall|i: int| 0 <= i < pieces.len() implies !(#[trigger] pieces[i]).contains(sep) by {
                if i < k + 1 {
                    assert(pieces[i] == rest[i]);
                }
            }
        } else {
            let pieces = rest.update(k, rest.last().push(c));
            if k == 0 {
                assert(join_with(pieces, sep) =~= s);
            } else {
                assert(pieces.drop_last() =~= rest.drop_last());
                assert(join_with(pieces, sep) =~= join_with(rest, sep).push(c));
                assert(join_with(pieces, sep) =~= s);
            }
            assert forall|i: int| 0 <= i < pieces.len() implies !(#[trigger] pieces[i]).contains(sep) by {
                if i == k {
                    assert(!rest[k].contains(sep));
                    assert forall|j: int| 0 <= j < pieces[i].len() implies pieces[i][j] != sep by {
                        if j < rest[k].len() {
                            assert(pieces[i][j] == rest[k][j]);
                        }
                    }
                }
            }
        }
    }
}

/// The pieces of `name` between its commas.
pub fn split_commas<'a>(name: &'a str) -> (v: Vec<&'a str>)
    ensures
        v@.map_values(|p: &str| p@) == split_on(name@, ','),
{
    let n = name.unicode_len();
    let mut v: Vec<&'a str> = Vec::new();
    let mut start: usize = 0;
    let mut i: usize = 0;
    assert(name@.subrange(0, 0) =~= Seq::<char>::empty());
    assert(v@.map_values(|p: &str| p@).push(name@.subrange(0, 0)) =~= seq![Seq::<char>::empty()]);
    while i < n
        invariant
            n == name@.len(),
            start <= i <= n,
            v@.map_values(|p: &str| p@).push(name@.subrange(start as int, i as int)) == split_on(
                name@.subrange(0, i as int),
                ',',
            ),
        decreases n - i,
    {
        let ghost prefix = name@.subrange(0, i + 1);
        let ghost pieces = v@.map_values(|p: &str| p@);
        assert(prefix.drop_last() =~= name@.subrange(0, i as int));
        let c = name.get_char(i);
        if c == ',' {
            let piece = name.substring_char(start, i);
            v.push(piece);
            start = i + 1;
            assert(v@.map_values(|p: &str| p@) =~= pieces.push(piece@));
            assert(name@.subrange(start as int, i + 1) =~= Seq::<char>::empty());
        } else {
            assert(name@.subrange(start as int, i + 1) =~= name@.subrange(
                start as int,
                i as int,
            ).push(c));
        }
        i += 1;
        assert(v@.map_values(|p: &str| p@).push(name@.subrange(start as int, i as int))
            =~= split_on(prefix, ','));
    }
    let last = name.substring_char(start, n);
    let ghost pieces = v@.map_values(|p: &str| p@);
    v.push(last);
    assert(name@.subrange(0, n as int) =~= name@);
    assert(v@.map_values(|p: &str| p@) =~= pieces.push(last@));
    v
}

/// A type that builds itself from (a piece of) a request.
pub trait FromSomething: Sized {
    /// `from_sth` can build a value from `name`.
    spec fn accepts(name: Seq<char>) -> bool;

    /// `v` is a value that `from_sth` builds from `name`.
    spec fn built_from(name: Seq<char>, v: Self) -> bool;

    /// Builds a value from `name`.
    fn from_sth(name: &str) -> (r: Self)
        requires
            Self::accepts(name@),
        ensures
            Self::built_from(name@, r),
    ;
}

impl FromSomething for () {
    open spec fn accepts(name: Seq<char>) -> bool {
        true
    }

    open spec fn built_from(name: Seq<char>, v: Self) -> bool {
        true
    }

    fn from_sth(_name: &str) {
    }
}

impl FromSomething for String {
    open spec fn accepts(name: Seq<char>) -> bool {
        true
    }

    open spec fn built_from(name: Seq<char>, v: Self) -> bool {
        v@ == name
    }

    fn from_sth(name: &str) -> (r: Self) {
        String::from_str(name)
    }
}

/// A handler argument type that holds its piece of the request.
#[derive(Debug, Ord, PartialOrd, Eq, PartialEq)]
pub struct Data0(pub String);

impl FromSomething for Data0 {
    open spec fn accepts(name: Seq<char>) -> bool {
        true
    }

    open spec fn built_from(name: Seq<char>, v: Self) -> bool {
        v.0@ == name
    }

    fn from_sth(name: &str) -> (r: Self) {
        Data0(String::from_str(name))
    }
}

/// A handler argument type that holds its piece of the request.
#[derive(Debug, Ord, PartialOrd, Eq, PartialEq)]
pub struct Data1(pub String);

impl FromSomething for Data1 {
    open spec fn accepts(name: Seq<char>) -> bool {
        true
    }

    open spec fn built_from(name: Seq<char>, v: Self) -> bool {
        v.0@ == name
    }

    fn from_sth(name: &str) -> (r: Self) {
        Data1(String::from_str(name))
    }
}

/// A handler argument type that holds its piece of the request.
#[derive(Debug, Ord, PartialOrd, Eq, PartialEq)]
pub struct Data2(pub String);

impl FromSomething for Data2 {
    open spec fn accepts(name: Seq<char>) -> bool {
        true
    }

    open spec fn built_from(name: Seq<char>, v: Self) -> bool {
        v.0@ == name
    }

    fn from_sth(name: &str) -> (r: Self) {
        Data2(String::from_str(name))
    }
}

/// A handler argument type that holds its piece of the request.
#[derive(Debug, Ord, PartialOrd, Eq, PartialEq)]
pub struct Data3(pub String);

impl FromSomething for Data3 {
    open spec fn accepts(name: Seq<char>) -> bool {
        true
    }

    open spec fn built_from(name: Seq<char>, v: Self) -> bool {
        v.0@ == name
    }

    fn from_sth(name: &str) -> (r: Self) {
        Data3(String::from_str(name))
    }
}

/// A tuple of 1 argument type: the request must have at least one piece; the
/// element at `i` is built from piece `i`.
impl<A: FromSomething> FromSomething for (A,) {
    open spec fn accepts(name: Seq<char>) -> bool {
        let parts = split_on(name, ',');
        parts.len() >= 1 && A::accepts(parts[0])
    }

    open spec fn built_from(name: Seq<char>, v: Self) -> bool {
        let parts = split_on(name, ',');
        A::built_from(parts[0], v.0)
    }

    fn from_sth(name: &str) -> (r: Self) {
        let v = split_commas(name);
        assert(v@[0]@ == split_on(name@, ',')[0]);
        (A::from_sth(v[0]),)
    }
}

/// A tuple of 2 argument types: the request must have at least two pieces; the
/// element at `i` is built from piece `i`.
impl<A: FromSomething, B: FromSomething> FromSomething for (A, B) {
    open spec fn accepts(name: Seq<char>) -> bool {
        let parts = split_on(name, ',');
        parts.len() >= 2 && A::accepts(parts[0]) && B::accepts(parts[1])
    }

    open spec fn built_from(name: Seq<char>, v: Self) -> bool {
        let parts = split_on(name, ',');
        A::built_from(parts[0], v.0) && B::built_from(parts[1], v.1)
    }

    fn from_sth(name: &str) -> (r: Self) {
        let v = split_commas(name);
        assert(v@[0]@ == split_on(name@, ',')[0]);
        assert(v@[1]@ == split_on(name@, ',')[1]);
        (A::from_sth(v[0]), B::from_sth(v[1]))
    }
}

/// A tuple of 3 argument types: the request must have at least three pieces; the
/// element at `i` is built from piece `i`.
impl<A: FromSomething, B: FromSomething, C: FromSomething> FromSomething for (A, B, C) {
    open spec fn accepts(name: Seq<char>) -> bool {
        let parts = split_on(name, ',');
        parts.len() >= 3 && A::accepts(parts[0]) && B::accepts(parts[1]) && C::accepts(parts[2])
    }

    open spec fn built_from(name: Seq<char>, v: Self) -> bool {
        let parts = split_on(name, ',');
        A::built_from(parts[0], v.0) && B::built_from(parts[1], v.1) && C::built_from(parts[2], v.2)
    }

    fn from_sth(name: &str) -> (r: Self) {
        let v = split_commas(name);
        assert(v@[0]@ == split_on(name@, ',')[0]);
        assert(v@[1]@ == split_on(name@, ',')[1]);
        assert(v@[2]@ == split_on(name@, ',')[2]);
        (A::from_sth(v[0]), B::from_sth(v[1]), C::from_sth(v[2]))
    }
}

/// A tuple of 4 argument types: the request must have at least four pieces; the
/// element at `i` is built from piece `i`.
impl<A: FromSomething, B: FromSomething, C: FromSomething, D: FromSomething> FromSomething for (A, B, C, D) {
    open spec fn accepts(name: Seq<char>) -> bool {
        let parts = split_on(name, ',');
        parts.len() >= 4 && A::accepts(parts[0]) && B::accepts(parts[1]) && C::accepts(parts[2]) && D::accepts(parts[3])
    }

    open spec fn built_from(name: Seq<char>, v: Self) -> bool {
        let parts = split_on(name, ',');
        A::built_from(parts[0], v.0) && B::built_from(parts[1], v.1) && C::built_from(parts[2], v.2) && D::built_from(parts[3], v.3)
    }

    fn from_sth(name: &str) -> (r: Self) {
        let v = split_commas(name);
        assert(v@[0]@ == split_on(name@, ',')[0]);
        assert(v@[1]@ == split_on(name@, ',')[1]);
        assert(v@[2]@ == split_on(name@, ',')[2]);
        assert(v@[3]@ == split_on(name@, ',')[3]);
        (A::from_sth(v[0]), B::from_sth(v[1]), C::from_sth(v[2]), D::from_sth(v[3]))
    }
}

/// An argument type holds exactly the piece of the request it is built
/// from: a `String` is the piece, and each `DataN` wraps the piece.
pub proof fn law_argument_holds_its_piece(
    name: Seq<char>,
    s: String,
    d0: Data0,
    d1: Data1,
    d2: Data2,
    d3: Data3,
)
    ensures
        <String as FromSomething>::built_from(name, s) ==> s@ == name,
        <Data0 as FromSomething>::built_from(name, d0) ==> d0.0@ == name,
        <Data1 as FromSomething>::built_from(name, d1) ==> d1.0@ == name,
        <Data2 as FromSomething>::built_from(name, d2) ==> d2.0@ == name,
        <Data3 as FromSomething>::built_from(name, d3) ==> d3.0@ == name,
        <String as FromSomething>::accepts(name),
        <Data0 as FromSomething>::accepts(name),
        <Data1 as FromSomething>::accepts(name),
        <Data2 as FromSomething>::accepts(name),
        <Data3 as FromSomething>::accepts(name),
{
}

/// A tuple of one argument is built from the first piece of the request.
pub proof fn law_tuple_1<A: FromSomething>(s: Seq<char>, v: (A,))
    ensures
        <(A,) as FromSomething>::built_from(s, v) ==> A::built_from(split_on(s, ',')[0], v.0),
        <(A,) as FromSomething>::accepts(s) <==> A::accepts(split_on(s, ',')[0]),
{
    lemma_split_on_nonempty(s, ',');
}

/// A tuple of two arguments needs two pieces; element `i` is built from
/// piece `i`.
pub proof fn law_tuple_2<A: FromSomething, B: FromSomething>(s: Seq<char>, v: (A, B))
    ensures
        <(A, B) as FromSomething>::built_from(s, v) ==> A::built_from(split_on(s, ',')[0], v.0)
            && B::built_from(split_on(s, ',')[1], v.1),
        <(A, B) as FromSomething>::accepts(s) <==> split_on(s, ',').len() >= 2 && A::accepts(
            split_on(s, ',')[0],
        ) && B::accepts(split_on(s, ',')[1]),
{
}

/// A tuple of three arguments needs three pieces; element `i` is built
/// from piece `i`.
pub proof fn law_tuple_3<A: FromSomething, B: FromSomething, C: FromSomething>(
    s: Seq<char>,
    v: (A, B, C),
)
    ensures
        <(A, B, C) as FromSomething>::built_from(s, v) ==> A::built_from(split_on(s, ',')[0], v.0)
            && B::built_from(split_on(s, ',')[1], v.1) && C::built_from(split_on(s, ',')[2], v.2),
        <(A, B, C) as FromSomething>::accepts(s) <==> split_on(s, ',').len() >= 3 && A::accepts(
            split_on(s, ',')[0],
        ) && B::accepts(split_on(s, ',')[1]) && C::accepts(split_on(s, ',')[2]),
{
}

/// A tuple of four arguments needs four pieces; element `i` is built from
/// piece `i`.
pub proof fn law_tuple_4<A: FromSomething, B: FromSomething, C: FromSomething, D: FromSomething>(
    s: Seq<char>,
    v: (A, B, C, D),
)
    ensures
        <(A, B, C, D) as FromSomething>::built_from(s, v) ==> A::built_from(
            split_on(s, ',')[0],
            v.0,
        ) && B::built_from(split_on(s, ',')[1], v.1) && C::built_from(split_on(s, ',')[2], v.2)
            && D::built_from(split_on(s, ',')[3], v.3),
        <(A, B, C, D) as FromSomething>::accepts(s) <==> split_on(s, ',').len() >= 4
            && A::accepts(split_on(s, ',')[0]) && B::accepts(split_on(s, ',')[1]) && C::accepts(
            split_on(s, ',')[2],
        ) && D::accepts(split_on(s, ',')[3]),
{
}

/// Three string arguments receive the first three pieces, in order.
pub proof fn law_three_strings(s: Seq<char>, v: (String, String, String))
    ensures
        <(String, String, String) as FromSomething>::built_from(s, v) ==> v.0@ == split_on(
            s,
            ',',
        )[0] && v.1@ == split_on(s, ',')[1] && v.2@ == split_on(s, ',')[2],
{
}

/// Joining pieces: one piece joins to itself, and one more piece is added
/// after a separator.
pub proof fn law_join_with(pieces: Seq<Seq<char>>, last: Seq<char>, sep: char)
    ensures
        join_with(seq![last], sep) == last,
        pieces.len() > 0 ==> join_with(pieces.push(last), sep) == join_with(pieces, sep) + seq![
            sep,
        ] + last,
{
    assert(seq![last][0] == last);
    if pieces.len() > 0 {
        assert(pieces.push(last).drop_last() =~= pieces);
    }
}

/// Cutting at `sep`: the text without separators is one piece, itself, and
/// a separator at the end starts a new, empty piece.
pub proof fn law_split_on_steps(s: Seq<char>, c: char, sep: char)
    ensures
        c != sep ==> split_on(s.push(c), sep).last() == split_on(s, sep).last().push(c),
        c != sep ==> split_on(s.push(c), sep).len() == split_on(s, sep).len(),
        split_on(s.push(sep), sep) == split_on(s, sep).push(Seq::<char>::empty()),
        split_on(Seq::<char>::empty(), sep) == seq![Seq::<char>::empty()],
{
    lemma_split_on_nonempty(s, sep);
    assert(s.push(c).drop_last() =~= s);
    assert(s.push(sep).drop_last() =~= s);
}

/// A handler that takes its arguments as a tuple.
pub trait FnWrapper<T, R> {
    /// The handler may be called with `p`.
    spec fn callable(&self, p: T) -> bool;

    /// The handler, called with `p`, may return `r`.
    spec fn gives(&self, p: T, r: R) -> bool;

    /// Calls the handler with the arguments in `p`.
    fn call(&self, p: T) -> (r: R)
        requires
            self.callable(p),
        ensures
            self.gives(p, r),
    ;
}

impl<T, R> FnWrapper<(), R> for T where T: Fn() -> R {
    open spec fn callable(&self, p: ()) -> bool {
        call_requires(*self, ())
    }

    open spec fn gives(&self, p: (), r: R) -> bool {
        call_ensures(*self, (), r)
    }

    fn call(&self, _p: ()) -> R {
        (self)()
    }
}

impl<T, R, A> FnWrapper<(A,), R> for T where T: Fn(A) -> R {
    open spec fn callable(&self, p: (A,)) -> bool {
        call_requires(*self, (p.0,))
    }

    open spec fn gives(&self, p: (A,), r: R) -> bool {
        call_ensures(*self, (p.0,), r)
    }

    fn call(&self, p: (A,)) -> R {
        (self)(p.0)
    }
}

impl<T, R, A, B> FnWrapper<(A, B), R> for T where T: Fn(A, B) -> R {
    open spec fn callable(&self, p: (A, B)) -> bool {
        call_requires(*self, (p.0, p.1))
    }

    open spec fn gives(&self, p: (A, B), r: R) -> bool {
        call_ensures(*self, (p.0, p.1), r)
    }

    fn call(&self, p: (A, B)) -> R {
        (self)(p.0, p.1)
    }
}

impl<T, R, A, B, C> FnWrapper<(A, B, C), R> for T where T: Fn(A, B, C) -> R {
    open spec fn callable(&self, p: (A, B, C)) -> bool {
        call_requires(*self, (p.0, p.1, p.2))
    }

    open spec fn gives(&self, p: (A, B, C), r: R) -> bool {
        call_ensures(*self, (p.0, p.1, p.2), r)
    }

    fn call(&self, p: (A, B, C)) -> R {
        (self)(p.0, p.1, p.2)
    }
}

impl<T, R, A, B, C, D> FnWrapper<(A, B, C, D), R> for T where T: Fn(A, B, C, D) -> R {
    open spec fn callable(&self, p: (A, B, C, D)) -> bool {
        call_requires(*self, (p.0, p.1, p.2, p.3))
    }

    open spec fn gives(&self, p: (A, B, C, D), r: R) -> bool {
        call_ensures(*self, (p.0, p.1, p.2, p.3), r)
    }

    fn call(&self, p: (A, B, C, D)) -> R {
        (self)(p.0, p.1, p.2, p.3)
    }
}

/// A handler of no argument may be called with `p` when the function may
/// be called with the elements of `p`, and gives what the function returns.
pub proof fn lemma_handler_0<T, R>(f: T, p: (), r: R) where T: Fn() -> R
    ensures
        <T as FnWrapper<(), R>>::callable(&f, p) == call_requires(f, ()),
        <T as FnWrapper<(), R>>::gives(&f, p, r) == call_ensures(f, (), r),
{
}

/// A handler of one argument may be called with `p` when the function may
/// be called with the elements of `p`, and gives what the function returns.
pub proof fn lemma_handler_1<T, R, A>(f: T, p: (A,), r: R) where T: Fn(A) -> R
    ensures
        <T as FnWrapper<(A,), R>>::callable(&f, p) == call_requires(f, (p.0,)),
        <T as FnWrapper<(A,), R>>::gives(&f, p, r) == call_ensures(f, (p.0,), r),
{
}

/// A handler of two arguments may be called with `p` when the function may
/// be called with the elements of `p`, and gives what the function returns.
pub proof fn lemma_handler_2<T, R, A, B>(f: T, p: (A, B), r: R) where T: Fn(A, B) -> R
    ensures
        <T as FnWrapper<(A, B), R>>::callable(&f, p) == call_requires(f, (p.0, p.1)),
        <T as FnWrapper<(A, B), R>>::gives(&f, p, r) == call_ensures(f, (p.0, p.1), r),
{
}

/// A handler of three arguments may be called with `p` when the function may
/// be called with the elements of `p`, and gives what the function returns.
pub proof fn lemma_handler_3<T, R, A, B, C>(f: T, p: (A, B, C), r: R) where T: Fn(A, B, C) -> R
    ensures
        <T as FnWrapper<(A, B, C), R>>::callable(&f, p) == call_requires(f, (p.0, p.1, p.2)),
        <T as FnWrapper<(A, B, C), R>>::gives(&f, p, r) == call_ensures(f, (p.0, p.1, p.2), r),
{
}

/// A handler of four arguments may be called with `p` when the function may
/// be called with the elements of `p`, and gives what the function returns.
pub proof fn lemma_handler_4<T, R, A, B, C, D>(f: T, p: (A, B, C, D), r: R) where T: Fn(A, B, C, D) -> R
    ensures
        <T as FnWrapper<(A, B, C, D), R>>::callable(&f, p) == call_requires(f, (p.0, p.1, p.2, p.3)),
        <T as FnWrapper<(A, B, C, D), R>>::gives(&f, p, r) == call_ensures(f, (p.0, p.1, p.2, p.3), r),
{
}

/// A request handler.
pub trait Service<Output> {
    /// The handler accepts the request `s`.
    spec fn accepts(&self, s: Seq<char>) -> bool;

    /// The handler may answer the request `s` with `r`.
    spec fn answers(&self, s: Seq<char>, r: Output) -> bool;

    /// Handles the request `s`.
    fn call(&self, s: &'static str) -> (r: Output)
        requires
            self.accepts(s@),
        ensures
            self.answers(s@, r),
    ;
}

/// A handler `Inner` whose arguments `FP` are built from the request.
pub struct Invoker<FP, FR, Inner> {
    handle: Inner,
    _p: PhantomData<(FP, FR)>,
}

impl<FP, FR, Inner: FnWrapper<FP, FR>> Invoker<FP, FR, Inner> {
    /// The wrapped handler.
    pub closed spec fn handler(&self) -> Inner {
        self.handle
    }

    /// Wraps the handler `inner`.
    pub fn new(inner: Inner) -> (r: Self)
        ensures
            r.handler() == inner,
    {
        Self { handle: inner, _p: PhantomData }
    }
}

impl<FP: FromSomething, FR, Inner: FnWrapper<FP, FR>> Service<FR> for Invoker<FP, FR, Inner> {
    open spec fn accepts(&self, s: Seq<char>) -> bool {
        &&& FP::accepts(s)
        &&& forall|p: FP| FP::built_from(s, p) ==> self.handler().callable(p)
    }

    /// The answer is the handler's, called with arguments built from `s`.
    open spec fn answers(&self, s: Seq<char>, r: FR) -> bool {
        exists|p: FP| FP::built_from(s, p) && self.handler().gives(p, r)
    }

    fn call(&self, s: &'static str) -> FR {
        self.handle.call(FP::from_sth(s))
    }
}

/// The error of a handler's result, carried through unopened.
#[verifier::external_type_specification]
#[verifier::external_body]
pub struct ExIoError(std::io::Error);

/// A route: a handler of requests, whatever its argument types.
pub struct Route {
    pub inner: Box<dyn Service<std::io::Result<i32>>>,
}

impl Route {
    /// A route to the handler `f`, whose arguments `FP` are built from each
    /// request: the route accepts a request when `FP` can be built from it
    /// and `f` can be called with what is built, and it answers with what
    /// `f` returns on those arguments.
    pub fn new<F, FP>(f: F) -> (r: Self) where
        F: 'static + FnWrapper<FP, std::io::Result<i32>>,
        FP: 'static + FromSomething,
    ensures
        forall|s: Seq<char>|
            #[trigger] r.inner.accepts(s) == (FP::accepts(s) && forall|p: FP|
                FP::built_from(s, p) ==> f.callable(p)),
        forall|s: Seq<char>, out: std::io::Result<i32>|
            #[trigger] r.inner.answers(s, out) == exists|p: FP|
                FP::built_from(s, p) && f.gives(p, out),
     {
        let invoker = Invoker::new(f);
        Route { inner: Box::new(invoker) }
    }
}

} // verus!
