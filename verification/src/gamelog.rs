use vstd::prelude::*;

verus! {

/// The lines shown in the console, oldest first.
pub struct GameLog {
    pub entries: Vec<String>,
}

impl View for GameLog {
    type V = Seq<Seq<char>>;

    open spec fn view(&self) -> Seq<Seq<char>> {
        Seq::new(self.entries@.len(), |i: int| self.entries@[i]@)
    }
}

impl GameLog {
    /// A log that holds `entries`.
    pub fn new(entries: Vec<String>) -> (log: Self)
        ensures
            log.entries == entries,
    {
        Self { entries }
    }

    /// Appends one line.
    pub fn push(&mut self, line: String)
        ensures
            final(self)@ == old(self)@.push(line@),
    {
        self.entries.push(line);
        assert(self@ =~= old(self)@.push(line@));
    }
}

/// The lines `line(e)` of the ids `e` below `n` of which `p` holds, by ascending id.
pub open spec fn lines_below(
    p: spec_fn(usize) -> bool,
    line: spec_fn(usize) -> Seq<char>,
    n: nat,
) -> Seq<Seq<char>>
    decreases n,
{
    if n == 0 {
        Seq::empty()
    } else {
        let rest = lines_below(p, line, (n - 1) as nat);
        if n - 1 <= usize::MAX && p((n - 1) as usize) {
            rest.push(line((n - 1) as usize))
        } else {
            rest
        }
    }
}

/// The lines `line(e)` of all ids `e` of which `p` holds, by ascending id.
pub open spec fn lines_of_all(p: spec_fn(usize) -> bool, line: spec_fn(usize) -> Seq<char>) -> Seq<
    Seq<char>,
> {
    lines_below(p, line, (usize::MAX + 1) as nat)
}

/// Ids of which `p` does not hold add no line.
pub proof fn lemma_lines_below_bound(
    p: spec_fn(usize) -> bool,
    line: spec_fn(usize) -> Seq<char>,
    n: nat,
    m: nat,
)
    requires
        n <= m,
        forall|e: usize| e >= n ==> !#[trigger] p(e),
    ensures
        lines_below(p, line, m) == lines_below(p, line, n),
    decreases m,
{
    if m > n {
        lemma_lines_below_bound(p, line, n, (m - 1) as nat);
    }
}

/// Where `p` holds of no id, there is no line.
pub proof fn lemma_lines_below_none(
    p: spec_fn(usize) -> bool,
    line: spec_fn(usize) -> Seq<char>,
    n: nat,
)
    requires
        forall|e: usize| !#[trigger] p(e),
    ensures
        lines_below(p, line, n) == Seq::<Seq<char>>::empty(),
    decreases n,
{
    if n > 0 {
        lemma_lines_below_none(p, line, (n - 1) as nat);
    }
}

/// Where `p` holds of the id `g` alone, there is the one line of `g`, once `g` is among
/// the ids.
pub proof fn lemma_lines_below_single(
    p: spec_fn(usize) -> bool,
    line: spec_fn(usize) -> Seq<char>,
    n: nat,
    g: usize,
)
    requires
        forall|e: usize| #[trigger] p(e) <==> e == g,
    ensures
        lines_below(p, line, n) == (if g < n {
            seq![line(g)]
        } else {
            Seq::<Seq<char>>::empty()
        }),
    decreases n,
{
    if n > 0 {
        lemma_lines_below_single(p, line, (n - 1) as nat, g);
        if n - 1 <= usize::MAX && p((n - 1) as usize) {
            assert(Seq::<Seq<char>>::empty().push(line(g)) =~= seq![line(g)]);
        }
    }
}

} // verus!
