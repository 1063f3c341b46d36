use std::marker::PhantomData;
use crate::decimal::{
    decimal, lemma_decimal_digits, lemma_decimal_injective, lemma_signed_decimal_injective,
    lemma_signed_decimal_numeric, numeric, push_decimal, push_signed_decimal, signed_decimal,
};
use vstd::prelude::*;
use vstd::string::StringExecFns;

verus! {

/// The display mode of a window.
#[derive(Debug, Clone, Copy, PartialEq, Eq, Structural)]
pub enum Mode {
    /// The window appears in its own frame.
    Windowed,
    /// The window takes the whole screen.
    Fullscreen,
    /// The window is not shown.
    Hidden,
}

/// Something that receives the current [`Mode`] of a window once.
trait OnMode<T> {
    /// Whether `out` is a possible result of running on `mode`.
    spec fn produces(&self, mode: Mode, out: T) -> bool;

    /// Runs, consuming `self`.
    fn run(self: Box<Self>, mode: Mode) -> (out: T)
        ensures
            self.produces(mode, out),
    ;
}

/// A closure that accepts every mode, seen as an [`OnMode`].
#[verifier::reject_recursive_types(T)]
struct ModeFn<T, F: FnOnce(Mode) -> T> {
    f: F,
    out: PhantomData<T>,
}

impl<T, F: FnOnce(Mode) -> T> ModeFn<T, F> {
    #[verifier::type_invariant]
    spec fn accepts_all(&self) -> bool {
        forall|m: Mode| #[trigger] self.f.requires((m,))
    }
}

impl<T, F: FnOnce(Mode) -> T> OnMode<T> for ModeFn<T, F> {
    closed spec fn produces(&self, mode: Mode, out: T) -> bool {
        self.f.ensures((mode,), out)
    }

    fn run(self: Box<Self>, mode: Mode) -> (out: T) {
        let this = *self;
        proof {
            use_type_invariant(&this);
        }
        (this.f)(mode)
    }
}

/// A callback whose result is passed through a closure that accepts every value.
#[verifier::reject_recursive_types(T)]
#[verifier::reject_recursive_types(A)]
struct Then<T, A, G: Fn(T) -> A> {
    first: Callback<T>,
    next: G,
    out: PhantomData<A>,
}

impl<T, A, G: Fn(T) -> A> Then<T, A, G> {
    #[verifier::type_invariant]
    spec fn accepts_all(&self) -> bool {
        forall|t: T| #[trigger] self.next.requires((t,))
    }
}

impl<T, A, G: Fn(T) -> A> OnMode<A> for Then<T, A, G> {
    closed spec fn produces(&self, mode: Mode, out: A) -> bool {
        exists|t: T| self.first.produces(mode, t) && #[trigger] self.next.ensures((t,), out)
    }

    fn run(self: Box<Self>, mode: Mode) -> (out: A) {
        let this = *self;
        proof {
            use_type_invariant(&this);
        }
        let t = this.first.run(mode);
        (this.next)(t)
    }
}

/// The callback of [`Action::FetchMode`]: it is run once, on the mode of the window.
#[verifier::reject_recursive_types(T)]
pub struct Callback<T> {
    inner: Box<dyn OnMode<T>>,
}

impl<T> Callback<T> {
    /// Whether `out` is a possible result of running the callback on `mode`.
    pub closed spec fn produces(&self, mode: Mode, out: T) -> bool {
        self.inner.produces(mode, out)
    }

    /// A callback that calls `f`, which must accept every mode.
    pub fn from_fn<F: FnOnce(Mode) -> T + 'static>(f: F) -> (r: Self) where T: 'static
        requires
            forall|m: Mode| #[trigger] f.requires((m,)),
        ensures
            forall|mode: Mode, out: T| #[trigger] r.produces(mode, out) == f.ensures((mode,), out),
    {
        let c = ModeFn { f, out: PhantomData };
        Callback { inner: Box::new(c) }
    }

    /// This callback with its result passed through `g`, which must accept every value.
    pub fn map<A, G: Fn(T) -> A + 'static>(self, g: G) -> (r: Callback<A>) where
        T: 'static,
        A: 'static,
        requires
            forall|t: T| #[trigger] g.requires((t,)),
        ensures
            forall|mode: Mode, out: A| #[trigger]
                r.produces(mode, out) == exists|t: T|
                    self.produces(mode, t) && #[trigger] g.ensures((t,), out),
    {
        let composed = Then { first: self, next: g, out: PhantomData };
        assert(composed.first == self && composed.next == g);
        let r = Callback { inner: Box::new(composed) };
        assert(forall|mode: Mode, out: A| #[trigger] r.produces(mode, out) == composed.produces(mode, out));
        r
    }

    /// Runs the callback on `mode`.
    pub fn run(self, mode: Mode) -> (out: T)
        ensures
            self.produces(mode, out),
    {
        self.inner.run(mode)
    }
}

/// An operation to be performed on some window.
#[verifier::reject_recursive_types(T)]
pub enum Action<T> {
    /// Resize the window to a new logical width and height.
    Resize { width: u32, height: u32 },
    /// Move the window to a new logical position (unsupported on Wayland).
    Move { x: i32, y: i32 },
    /// Set the [`Mode`] of the window.
    SetMode(Mode),
    /// Fetch the current [`Mode`] of the window, handing it to the callback.
    FetchMode(Callback<T>),
    /// Move the IME candidate window to a new logical position.
    MoveIMECandidateWindow { x: i32, y: i32 },
    /// Allow or forbid the IME.
    SetIMEAllow(bool),
}

/// Whether `r` is `a` with the result of its callback passed through `f`:
/// every other command keeps its variant and its fields.
pub open spec fn mapped<T, A, F: Fn(T) -> A>(a: Action<T>, r: Action<A>, f: F) -> bool {
    match (a, r) {
        (Action::Resize { width, height }, Action::Resize { width: w, height: h }) => width == w
            && height == h,
        (Action::Move { x, y }, Action::Move { x: x2, y: y2 }) => x == x2 && y == y2,
        (Action::SetMode(m), Action::SetMode(m2)) => m == m2,
        (Action::FetchMode(o), Action::FetchMode(p)) => forall|mode: Mode, out: A|
            #[trigger] p.produces(mode, out) == exists|t: T|
                o.produces(mode, t) && #[trigger] f.ensures((t,), out),
        (
            Action::MoveIMECandidateWindow { x, y },
            Action::MoveIMECandidateWindow { x: x2, y: y2 },
        ) => x == x2 && y == y2,
        (Action::SetIMEAllow(b), Action::SetIMEAllow(b2)) => b == b2,
        _ => false,
    }
}

impl<T> Action<T> {
    /// Maps the output of a window [`Action`] using the provided closure,
    /// which must accept every value.
    pub fn map<A>(self, f: impl Fn(T) -> A + 'static + Send + Sync) -> (r: Action<A>) where
        T: 'static,
        A: 'static,
        requires
            forall|t: T| #[trigger] f.requires((t,)),
        ensures
            mapped(self, r, f),
    {
        match self {
            Action::Resize { width, height } => Action::Resize { width, height },
            Action::Move { x, y } => Action::Move { x, y },
            Action::SetMode(mode) => Action::SetMode(mode),
            Action::FetchMode(o) => Action::FetchMode(o.map(f)),
            Action::SetIMEAllow(allow) => Action::SetIMEAllow(allow),
            Action::MoveIMECandidateWindow { x, y } => Action::MoveIMECandidateWindow { x, y },
        }
    }
}

/// Mapping an action with the identity yields an equal action: every command
/// but [`Action::FetchMode`] is unchanged, and the callback of that one gives
/// exactly the results it gave before. Its text is unchanged too.
pub proof fn lemma_map_identity<T, F: Fn(T) -> T>(a: Action<T>, r: Action<T>, f: F)
    requires
        forall|t: T, u: T| #[trigger] f.ensures((t,), u) <==> u == t,
        mapped(a, r, f),
    ensures
        !(a is FetchMode) ==> r == a,
        a is FetchMode ==> r is FetchMode && forall|mode: Mode, out: T| #[trigger]
            r->FetchMode_0.produces(mode, out) == a->FetchMode_0.produces(mode, out),
        action_text(r) == action_text(a),
{
    if let Action::FetchMode(o) = a {
        let p = r->FetchMode_0;
        assert forall|mode: Mode, out: T| #[trigger] p.produces(mode, out) == o.produces(mode, out) by {
            if o.produces(mode, out) {
                assert(f.ensures((out,), out));
            }
        }
    }
}

/// How a [`Mode`] reads in the text of an [`Action`].
pub open spec fn mode_text(m: Mode) -> Seq<char> {
    match m {
        Mode::Windowed => "Windowed"@,
        Mode::Fullscreen => "Fullscreen"@,
        Mode::Hidden => "Hidden"@,
    }
}

/// How a `bool` reads in the text of an [`Action`].
pub open spec fn bool_text(b: bool) -> Seq<char> {
    if b {
        "true"@
    } else {
        "false"@
    }
}

/// The diagnostic text of an [`Action`]: its variant and each of its fields;
/// the callback of [`Action::FetchMode`] is not shown.
pub open spec fn action_text<T>(a: Action<T>) -> Seq<char> {
    match a {
        Action::Resize { width, height } => "Action::Resize { width: "@ + decimal(width as nat)
            + ", height: "@ + decimal(height as nat) + " }"@,
        Action::Move { x, y } => "Action::Move { x: "@ + signed_decimal(x as int) + ", y: "@
            + signed_decimal(y as int) + " }"@,
        Action::SetMode(m) => "Action::SetMode("@ + mode_text(m) + ")"@,
        Action::FetchMode(_) => "Action::FetchMode"@,
        Action::MoveIMECandidateWindow { x, y } => "Action::MoveIMECandidateWindow { x: "@
            + signed_decimal(x as int) + ", y: "@ + signed_decimal(y as int) + " }"@,
        Action::SetIMEAllow(allow) => "Action::SetIMEAllow { allow : "@ + bool_text(allow)
            + " }"@,
    }
}

/// Two numeric fields separated by a mark that is not numeric can be told apart.
proof fn lemma_split_at_mark(x1: Seq<char>, y1: Seq<char>, x2: Seq<char>, y2: Seq<char>, m: Seq<char>)
    requires
        forall|k: int| 0 <= k < x1.len() ==> #[trigger] numeric(x1[k]),
        forall|k: int| 0 <= k < x2.len() ==> #[trigger] numeric(x2[k]),
        m.len() > 0,
        !numeric(m[0]),
        x1 + m + y1 == x2 + m + y2,
    ensures
        x1 == x2,
        y1 == y2,
{
    let t = x1 + m + y1;
    if x1.len() < x2.len() {
        assert(t[x1.len() as int] == m[0]);
        assert(t[x1.len() as int] == x2[x1.len() as int]);
    }
    if x2.len() < x1.len() {
        assert(t[x2.len() as int] == x1[x2.len() as int]);
        assert((x2 + m + y2)[x2.len() as int] == m[0]);
    }
    assert(x1 =~= t.subrange(0, x1.len() as int));
    assert(x2 =~= (x2 + m + y2).subrange(0, x2.len() as int));
    assert(y1 =~= t.subrange((x1.len() + m.len()) as int, t.len() as int));
    assert(y2 =~= (x2 + m + y2).subrange((x2.len() + m.len()) as int, t.len() as int));
}

/// Text made of a prefix and two numeric fields, each followed by a mark that
/// is not numeric, shows both fields.
proof fn lemma_two_fields(
    p: Seq<char>,
    x1: Seq<char>,
    y1: Seq<char>,
    x2: Seq<char>,
    y2: Seq<char>,
    m: Seq<char>,
    q: Seq<char>,
)
    requires
        forall|k: int| 0 <= k < x1.len() ==> #[trigger] numeric(x1[k]),
        forall|k: int| 0 <= k < x2.len() ==> #[trigger] numeric(x2[k]),
        forall|k: int| 0 <= k < y1.len() ==> #[trigger] numeric(y1[k]),
        forall|k: int| 0 <= k < y2.len() ==> #[trigger] numeric(y2[k]),
        m.len() > 0,
        !numeric(m[0]),
        q.len() > 0,
        !numeric(q[0]),
        p + x1 + m + y1 + q == p + x2 + m + y2 + q,
    ensures
        x1 == x2,
        y1 == y2,
{
    let t = p + x1 + m + y1 + q;
    assert(t.subrange(p.len() as int, t.len() as int) =~= x1 + m + (y1 + q + Seq::<char>::empty()));
    assert((p + x2 + m + y2 + q).subrange(p.len() as int, t.len() as int) =~= x2 + m + (y2 + q
        + Seq::<char>::empty()));
    lemma_split_at_mark(x1, y1 + q + Seq::<char>::empty(), x2, y2 + q + Seq::<char>::empty(), m);
    lemma_split_at_mark(y1, Seq::<char>::empty(), y2, Seq::<char>::empty(), q);
}

/// Three characters of the text of `a` that tell its variant: the first of the
/// variant's name and its fourth and fifth.
spec fn variant_tag<T>(a: Action<T>) -> (char, char, char) {
    match a {
        Action::Resize { .. } => ('R', 'i', 'z'),
        Action::Move { .. } => ('M', 'e', ' '),
        Action::SetMode(_) => ('S', 'M', 'o'),
        Action::FetchMode(_) => ('F', 'c', 'h'),
        Action::MoveIMECandidateWindow { .. } => ('M', 'e', 'I'),
        Action::SetIMEAllow(_) => ('S', 'I', 'M'),
    }
}

proof fn lemma_variant_tag<T>(a: Action<T>)
    ensures
        action_text(a).len() > 12,
        (action_text(a)[8], action_text(a)[11], action_text(a)[12]) == variant_tag(a),
{
    let t = action_text(a);
    match a {
        Action::Resize { width, height } => {
            reveal_strlit("Action::Resize { width: ");
            let l = "Action::Resize { width: "@;
            assert(t =~= l + (decimal(width as nat) + ", height: "@ + decimal(height as nat)
                + " }"@));
        },
        Action::Move { x, y } => {
            reveal_strlit("Action::Move { x: ");
            let l = "Action::Move { x: "@;
            assert(t =~= l + (signed_decimal(x as int) + ", y: "@ + signed_decimal(y as int)
                + " }"@));
        },
        Action::SetMode(m) => {
            reveal_strlit("Action::SetMode(");
            let l = "Action::SetMode("@;
            assert(t =~= l + (mode_text(m) + ")"@));
        },
        Action::FetchMode(_) => {
            reveal_strlit("Action::FetchMode");
        },
        Action::MoveIMECandidateWindow { x, y } => {
            reveal_strlit("Action::MoveIMECandidateWindow { x: ");
            let l = "Action::MoveIMECandidateWindow { x: "@;
            assert(t =~= l + (signed_decimal(x as int) + ", y: "@ + signed_decimal(y as int)
                + " }"@));
        },
        Action::SetIMEAllow(allow) => {
            reveal_strlit("Action::SetIMEAllow { allow : ");
            let l = "Action::SetIMEAllow { allow : "@;
            assert(t =~= l + (bool_text(allow) + " }"@));
        },
    }
}

/// The text of an action shows each of its fields: two actions with the same
/// text are equal, unless both fetch the mode (the callback is not shown).
pub proof fn lemma_text_shows_fields<T>(a: Action<T>, b: Action<T>)
    requires
        action_text(a) == action_text(b),
    ensures
        a == b || (a is FetchMode && b is FetchMode),
{
    lemma_variant_tag(a);
    lemma_variant_tag(b);
    reveal_strlit(", height: ");
    reveal_strlit(", y: ");
    reveal_strlit(" }");
    match (a, b) {
        (Action::Resize { width: w1, height: h1 }, Action::Resize { width: w2, height: h2 }) => {
            lemma_decimal_digits(w1 as nat);
            lemma_decimal_digits(w2 as nat);
            lemma_decimal_digits(h1 as nat);
            lemma_decimal_digits(h2 as nat);
            lemma_two_fields(
                "Action::Resize { width: "@,
                decimal(w1 as nat),
                decimal(h1 as nat),
                decimal(w2 as nat),
                decimal(h2 as nat),
                ", height: "@,
                " }"@,
            );
            lemma_decimal_injective(w1 as nat, w2 as nat);
            lemma_decimal_injective(h1 as nat, h2 as nat);
        },
        (Action::Move { x: x1, y: y1 }, Action::Move { x: x2, y: y2 }) => {
            lemma_signed_decimal_numeric(x1 as int);
            lemma_signed_decimal_numeric(x2 as int);
            lemma_signed_decimal_numeric(y1 as int);
            lemma_signed_decimal_numeric(y2 as int);
            lemma_two_fields(
                "Action::Move { x: "@,
                signed_decimal(x1 as int),
                signed_decimal(y1 as int),
                signed_decimal(x2 as int),
                signed_decimal(y2 as int),
                ", y: "@,
                " }"@,
            );
            lemma_signed_decimal_injective(x1 as int, x2 as int);
            lemma_signed_decimal_injective(y1 as int, y2 as int);
        },
        (
            Action::MoveIMECandidateWindow { x: x1, y: y1 },
            Action::MoveIMECandidateWindow { x: x2, y: y2 },
        ) => {
            lemma_signed_decimal_numeric(x1 as int);
            lemma_signed_decimal_numeric(x2 as int);
            lemma_signed_decimal_numeric(y1 as int);
            lemma_signed_decimal_numeric(y2 as int);
            lemma_two_fields(
                "Action::MoveIMECandidateWindow { x: "@,
                signed_decimal(x1 as int),
                signed_decimal(y1 as int),
                signed_decimal(x2 as int),
                signed_decimal(y2 as int),
                ", y: "@,
                " }"@,
            );
            lemma_signed_decimal_injective(x1 as int, x2 as int);
            lemma_signed_decimal_injective(y1 as int, y2 as int);
        },
        (Action::SetMode(m1), Action::SetMode(m2)) => {
            reveal_strlit("Windowed");
            reveal_strlit("Fullscreen");
            reveal_strlit("Hidden");
            assert(action_text(a).len() == action_text(b).len());
        },
        (Action::SetIMEAllow(b1), Action::SetIMEAllow(b2)) => {
            reveal_strlit("true");
            reveal_strlit("false");
            assert(action_text(a).len() == action_text(b).len());
        },
        _ => {},
    }
}

fn mode_str(m: Mode) -> (r: &'static str)
    ensures
        r@ == mode_text(m),
{
    match m {
        Mode::Windowed => "Windowed",
        Mode::Fullscreen => "Fullscreen",
        Mode::Hidden => "Hidden",
    }
}

fn bool_str(b: bool) -> (r: &'static str)
    ensures
        r@ == bool_text(b),
{
    if b {
        "true"
    } else {
        "false"
    }
}

impl<T> Action<T> {
    /// The diagnostic text of this action, which shows each of its fields.
    pub fn debug_text(&self) -> (r: String)
        ensures
            r@ == action_text(*self),
    {
        match self {
            Action::Resize { width, height } => {
                let mut s = String::from_str("Action::Resize { width: ");
                push_decimal(&mut s, *width as u64);
                s.append(", height: ");
                push_decimal(&mut s, *height as u64);
                s.append(" }");
                s
            },
            Action::Move { x, y } => {
                let mut s = String::from_str("Action::Move { x: ");
                push_signed_decimal(&mut s, *x as i64);
                s.append(", y: ");
                push_signed_decimal(&mut s, *y as i64);
                s.append(" }");
                s
            },
            Action::SetMode(mode) => {
                let mut s = String::from_str("Action::SetMode(");
                s.append(mode_str(*mode));
                s.append(")");
                s
            },
            Action::FetchMode(_) => String::from_str("Action::FetchMode"),
            Action::MoveIMECandidateWindow { x, y } => {
                let mut s = String::from_str("Action::MoveIMECandidateWindow { x: ");
                push_signed_decimal(&mut s, *x as i64);
                s.append(", y: ");
                push_signed_decimal(&mut s, *y as i64);
                s.append(" }");
                s
            },
            Action::SetIMEAllow(allow) => {
                let mut s = String::from_str("Action::SetIMEAllow { allow : ");
                s.append(bool_str(*allow));
                s.append(" }");
                s
            },
        }
    }
}

} // verus!
