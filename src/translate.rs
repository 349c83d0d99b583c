use vstd::prelude::*;

use crate::instruction::ExecutorCommand;
use crate::text::chars_of;

verus! {

/// Why a source text does not translate.
#[derive(Clone, Copy, Debug, PartialEq, Eq, Structural)]
pub enum SyntaxError {
    /// A `]` closes no open `[`.
    UnmatchedCloseBracket,
    /// A `[` is never closed.
    UnmatchedOpenBracket,
}

impl SyntaxError {
    /// The text shown to the user.
    pub fn message(&self) -> (r: &'static str) {
        match self {
            SyntaxError::UnmatchedCloseBracket => "Syntax Error: '['s and ']'s do not properly match. There are more ']'s than '['s ",
            SyntaxError::UnmatchedOpenBracket => "Syntax Error: '['s and ']'s do not properly match. There are more '['s than ']'s ",
        }
    }
}

/// The characters that stand for an instruction.
pub open spec fn is_op(c: char) -> bool {
    c == '>' || c == '<' || c == '+' || c == '-' || c == '.' || c == ',' || c == '[' || c == ']'
}

pub open spec fn delta(c: char) -> int {
    if c == '[' {
        1
    } else if c == ']' {
        -1
    } else {
        0
    }
}

/// How many `[` of `s` are still open at its end (negative once a `]` has nothing to close).
pub open spec fn depth(s: Seq<char>) -> int
    decreases s.len(),
{
    if s.len() == 0 {
        0
    } else {
        depth(s.drop_last()) + delta(s.last())
    }
}

/// No prefix of `s` closes more brackets than it opens.
pub open spec fn never_below_zero(s: Seq<char>) -> bool {
    forall|i: int| 0 <= i <= s.len() ==> depth(#[trigger] s.take(i)) >= 0
}

/// Every bracket of `s` has its partner.
pub open spec fn well_bracketed(s: Seq<char>) -> bool {
    never_below_zero(s) && depth(s) == 0
}

/// The instruction characters of `s`, in order.
pub open spec fn ops(s: Seq<char>) -> Seq<char>
    decreases s.len(),
{
    if s.len() == 0 {
        Seq::empty()
    } else if is_op(s.last()) {
        ops(s.drop_last()).push(s.last())
    } else {
        ops(s.drop_last())
    }
}

/// For each breakpoint marker `:` of `s` (in debug mode only), the position that the next
/// instruction takes.
pub open spec fn breakpoint_marks(s: Seq<char>, debug: bool) -> Seq<usize>
    decreases s.len(),
{
    if s.len() == 0 {
        Seq::empty()
    } else {
        let b = breakpoint_marks(s.drop_last(), debug);
        if debug && s.last() == ':' {
            b.push(ops(s.drop_last()).len() as usize)
        } else {
            b
        }
    }
}

/// The source characters of a sequence of instructions.
pub open spec fn kinds(c: Seq<ExecutorCommand>) -> Seq<char> {
    c.map_values(|x: ExecutorCommand| x.symbol())
}

/// `t` is the position of the `]` that closes the `[` at `i`: the first place after `i`
/// where the bracket depth falls back to what it was before `i`.
pub open spec fn closes_at(c: Seq<ExecutorCommand>, i: int, t: int) -> bool {
    &&& 0 <= i < t < c.len()
    &&& c[t] == ExecutorCommand::JumpBack(i as usize)
    &&& depth(kinds(c).take(t + 1)) == depth(kinds(c).take(i))
    &&& forall|m: int|
        i < m < t ==> depth(#[trigger] kinds(c).take(m + 1)) > depth(kinds(c).take(i))
}

/// Each forward jump targets its matching backward jump, and each backward jump targets
/// the forward jump that targets it.
pub open spec fn paired(c: Seq<ExecutorCommand>) -> bool {
    &&& forall|i: int|
        0 <= i < c.len() && (#[trigger] c[i]) is JumpForward ==> closes_at(
            c,
            i,
            c[i]->JumpForward_0 as int,
        )
    &&& forall|i: int|
        0 <= i < c.len() && (#[trigger] c[i]) is JumpBack ==> {
            let t = c[i]->JumpBack_0 as int;
            0 <= t < i && c[t] == ExecutorCommand::JumpForward(i as usize)
        }
}

/// Every backward jump targets a position from which the program counter can still move on
/// by one.
pub open spec fn back_jumps_fit(c: Seq<ExecutorCommand>) -> bool {
    forall|i: int|
        0 <= i < c.len() && (#[trigger] c[i]) is JumpBack ==> c[i]->JumpBack_0 < usize::MAX
}

/// What translating `s` gives: the error exactly when the brackets do not match, and
/// otherwise one instruction per instruction character, jumps paired with their partners,
/// and the breakpoint positions.
pub open spec fn translates_to(
    s: Seq<char>,
    debug: bool,
    r: Result<(Seq<ExecutorCommand>, Seq<usize>), SyntaxError>,
) -> bool {
    match r {
        Err(SyntaxError::UnmatchedCloseBracket) => !never_below_zero(s),
        Err(SyntaxError::UnmatchedOpenBracket) => never_below_zero(s) && depth(s) > 0,
        Ok((c, b)) => well_bracketed(s) && kinds(c) == ops(s) && paired(c) && b
            == breakpoint_marks(s, debug),
    }
}

/// A well-bracketed source always translates, and in its instructions each forward jump
/// targets the position of its matching backward jump, which targets it in turn.
pub proof fn lemma_well_bracketed_pairs(
    s: Seq<char>,
    debug: bool,
    r: Result<(Seq<ExecutorCommand>, Seq<usize>), SyntaxError>,
)
    requires
        translates_to(s, debug, r),
        well_bracketed(s),
    ensures
        r is Ok,
        paired(r->Ok_0.0),
        forall|i: int|
            0 <= i < r->Ok_0.0.len() && (#[trigger] r->Ok_0.0[i]) is JumpForward ==> {
                let t = r->Ok_0.0[i]->JumpForward_0 as int;
                0 <= t < r->Ok_0.0.len() && r->Ok_0.0[t] == ExecutorCommand::JumpBack(i as usize)
            },
{
    if r is Ok {
        let c = r->Ok_0.0;
        assert forall|i: int| 0 <= i < c.len() && (#[trigger] c[i]) is JumpForward implies {
            let t = c[i]->JumpForward_0 as int;
            0 <= t < c.len() && c[t] == ExecutorCommand::JumpBack(i as usize)
        } by {
            assert(closes_at(c, i, c[i]->JumpForward_0 as int));
        }
    }
}

/// The instructions of a translated program satisfy what the machine asks of the programs it
/// runs.
pub proof fn lemma_paired_back_jumps_fit(c: Seq<ExecutorCommand>)
    requires
        paired(c),
    ensures
        back_jumps_fit(c),
{
}

/// Whether every backward jump of `c` targets a position from which the program counter can
/// still move on by one, as the machine requires of the programs it runs.
pub fn back_jumps_fit_in(c: &Vec<ExecutorCommand>) -> (r: bool)
    ensures
        r == back_jumps_fit(c@),
{
    let n = c.len();
    let mut i: usize = 0;
    while i < n
        invariant
            n == c@.len(),
            i <= n,
            forall|k: int|
                0 <= k < i && (#[trigger] c@[k]) is JumpBack ==> c@[k]->JumpBack_0 < usize::MAX,
        decreases n - i,
    {
        if let ExecutorCommand::JumpBack(t) = c[i] {
            if t == usize::MAX {
                return false;
            }
        }
        i = i + 1;
    }
    true
}

/// The position that the instruction character at source position `q` takes: the number of
/// instruction characters before it.
pub open spec fn position_of(s: Seq<char>, q: int) -> int {
    ops(s.take(q)).len() as int
}

/// The `[` at source position `a` and the `]` at `b` match: the depth returns at `b` to what
/// it was before `a`, and stays above it in between.
pub open spec fn source_match(s: Seq<char>, a: int, b: int) -> bool {
    &&& 0 <= a < b < s.len()
    &&& s[a] == '[' && s[b] == ']'
    &&& depth(s.take(b + 1)) == depth(s.take(a))
    &&& forall|m: int| a < m < b ==> depth(#[trigger] s.take(m + 1)) > depth(s.take(a))
}

proof fn lemma_ops_prefix(s: Seq<char>, q: int)
    requires
        0 <= q <= s.len(),
    ensures
        ops(s.take(q)).len() <= ops(s).len(),
        ops(s).take(ops(s.take(q)).len() as int) == ops(s.take(q)),
    decreases s.len(),
{
    if q == s.len() {
        assert(s.take(q) =~= s);
        assert(ops(s).take(ops(s).len() as int) =~= ops(s));
    } else {
        assert(s.drop_last().take(q) =~= s.take(q));
        lemma_ops_prefix(s.drop_last(), q);
        let p = ops(s.drop_last());
        let k = ops(s.take(q)).len() as int;
        if is_op(s.last()) {
            assert(p.push(s.last()).take(k) =~= p.take(k));
        }
    }
}

proof fn lemma_depth_of_ops(s: Seq<char>)
    ensures
        depth(ops(s)) == depth(s),
    decreases s.len(),
{
    if s.len() > 0 {
        lemma_depth_of_ops(s.drop_last());
        if is_op(s.last()) {
            assert(ops(s).drop_last() =~= ops(s.drop_last()));
        }
    }
}

proof fn lemma_op_at(s: Seq<char>, q: int)
    requires
        0 <= q < s.len(),
        is_op(s[q]),
    ensures
        position_of(s, q + 1) == position_of(s, q) + 1,
        position_of(s, q) < ops(s).len(),
        ops(s)[position_of(s, q)] == s[q],
{
    assert(s.take(q + 1).drop_last() =~= s.take(q));
    lemma_ops_prefix(s, q + 1);
    let k = position_of(s, q);
    assert(ops(s).take(k + 1)[k] == ops(s)[k]);
}

proof fn lemma_position_monotone(s: Seq<char>, q1: int, q2: int)
    requires
        0 <= q1 <= q2 <= s.len(),
    ensures
        position_of(s, q1) <= position_of(s, q2),
{
    assert(s.take(q2).take(q1) =~= s.take(q1));
    lemma_ops_prefix(s.take(q2), q1);
}

proof fn lemma_op_source(s: Seq<char>, k: int)
    requires
        0 <= k < ops(s).len(),
    ensures
        exists|q: int| 0 <= q < s.len() && is_op(s[q]) && #[trigger] position_of(s, q) == k,
    decreases s.len(),
{
    let d = s.drop_last();
    if k < ops(d).len() {
        lemma_op_source(d, k);
        let q = choose|q: int| 0 <= q < d.len() && is_op(d[q]) && #[trigger] position_of(d, q) == k;
        assert(d.take(q) =~= s.take(q));
        assert(position_of(s, q) == k);
    } else {
        let q = s.len() - 1;
        assert(s.take(q) =~= d);
        assert(position_of(s, q) == k);
    }
}

/// In the translation of a source, the `[` and `]` that match in the source become a forward
/// jump and a backward jump that target each other's positions.
pub proof fn lemma_source_brackets_pair(
    s: Seq<char>,
    debug: bool,
    c: Seq<ExecutorCommand>,
    bps: Seq<usize>,
    a: int,
    b: int,
)
    requires
        translates_to(s, debug, Ok((c, bps))),
        source_match(s, a, b),
    ensures
        c[position_of(s, a)] == ExecutorCommand::JumpForward(position_of(s, b) as usize),
        c[position_of(s, b)] == ExecutorCommand::JumpBack(position_of(s, a) as usize),
{
    let pa = position_of(s, a);
    let pb = position_of(s, b);
    lemma_op_at(s, a);
    lemma_op_at(s, b);
    lemma_position_monotone(s, a + 1, b);
    assert(kinds(c)[pa] == c[pa].symbol());
    assert(kinds(c)[pb] == c[pb].symbol());
    assert(c[pa] is JumpForward);
    assert(c[pb] is JumpBack);
    // the depth before `a` and after `b`
    lemma_ops_prefix(s, a);
    lemma_depth_of_ops(s.take(a));
    lemma_ops_prefix(s, b + 1);
    lemma_depth_of_ops(s.take(b + 1));
    let d = depth(kinds(c).take(pa));
    assert(d == depth(s.take(a)));
    assert(depth(kinds(c).take(pb + 1)) == d);
    // the depth stays above in between
    assert forall|m: int| pa < m < pb implies depth(#[trigger] kinds(c).take(m + 1)) > d by {
        lemma_op_source(s, m);
        let q = choose|q: int| 0 <= q < s.len() && is_op(s[q]) && #[trigger] position_of(s, q) == m;
        if q <= a {
            lemma_position_monotone(s, q, a);
        }
        if q >= b {
            lemma_position_monotone(s, b, q);
        }
        lemma_op_at(s, q);
        lemma_ops_prefix(s, q + 1);
        lemma_depth_of_ops(s.take(q + 1));
        assert(depth(s.take(q + 1)) > depth(s.take(a)));
    }
    let t = c[pa]->JumpForward_0 as int;
    assert(closes_at(c, pa, t));
    if t < pb {
        assert(depth(kinds(c).take(t + 1)) > d);
    }
    if t > pb {
        assert(depth(kinds(c).take(pb + 1)) > depth(kinds(c).take(pa)));
    }
    assert(t == pb);
}

proof fn lemma_take_kinds(c: Seq<ExecutorCommand>, x: ExecutorCommand, m: int)
    requires
        0 <= m <= c.len(),
    ensures
        kinds(c.push(x)).take(m) == kinds(c).take(m),
        kinds(c.push(x)) == kinds(c).push(x.symbol()),
{
    assert(kinds(c.push(x)).take(m) =~= kinds(c).take(m));
    assert(kinds(c.push(x)) =~= kinds(c).push(x.symbol()));
}

/// Translates source text into instructions with resolved jumps. In debug mode each `:`
/// records the position of the next instruction as a breakpoint; every other character
/// that is not an instruction is skipped.
#[verifier::rlimit(80)]
pub fn translate_into_commands(string: &str, debug: bool) -> (r: Result<
    (Vec<ExecutorCommand>, Vec<usize>),
    SyntaxError,
>)
    ensures
        translates_to(
            string@,
            debug,
            match r {
                Ok((c, b)) => Ok((c@, b@)),
                Err(e) => Err(e),
            },
        ),
{
    let v = chars_of(string);
    let n = v.len();
    let mut commands: Vec<ExecutorCommand> = Vec::new();
    let mut pos_in_commands: Vec<usize> = Vec::new();
    let mut breakpoints: Vec<usize> = Vec::new();
    let mut i: usize = 0;
    assert(string@.take(0) =~= Seq::<char>::empty());
    assert(kinds(commands@) =~= Seq::<char>::empty());
    while i < n
        invariant
            v@ == string@,
            n == v.len(),
            i <= n,
            commands.len() <= i,
            kinds(commands@) == ops(string@.take(i as int)),
            never_below_zero(string@.take(i as int)),
            depth(string@.take(i as int)) == pos_in_commands.len(),
            depth(kinds(commands@)) == pos_in_commands.len(),
            breakpoints@ == breakpoint_marks(string@.take(i as int), debug),
            // the open brackets, innermost last
            forall|k: int, l: int|
                0 <= k < l < pos_in_commands.len() ==> pos_in_commands[k] < pos_in_commands[l],
            forall|k: int|
                0 <= k < pos_in_commands.len() ==> {
                    let p = #[trigger] pos_in_commands[k] as int;
                    &&& p < commands.len()
                    &&& commands[p] == ExecutorCommand::JumpForward(0)
                    &&& depth(kinds(commands@).take(p)) == k
                    &&& forall|m: int|
                        p < m < commands.len() ==> depth(#[trigger] kinds(commands@).take(m + 1))
                            > k
                },
            // the closed ones
            forall|j: int|
                0 <= j < commands.len() && (#[trigger] commands[j]) is JumpForward ==> (exists|
                    k: int,
                | 0 <= k < pos_in_commands.len() && pos_in_commands[k] == j) || closes_at(
                    commands@,
                    j,
                    commands[j]->JumpForward_0 as int,
                ),
            forall|j: int|
                0 <= j < commands.len() && (#[trigger] commands[j]) is JumpBack ==> {
                    let t = commands[j]->JumpBack_0 as int;
                    0 <= t < j && commands[t] == ExecutorCommand::JumpForward(j as usize)
                },
        decreases n - i,
    {
        let c = v[i];
        let ghost pre = string@.take(i as int);
        let ghost old_cmds = commands@;
        let ghost old_stack = pos_in_commands@;
        assert(string@.take(i + 1) =~= pre.push(c));
        assert(string@.take(i + 1).drop_last() =~= pre);
        let ptr = commands.len();
        if c == '[' {
            pos_in_commands.push(ptr);
            commands.push(ExecutorCommand::JumpForward(0));
            proof {
                lemma_take_kinds(old_cmds, ExecutorCommand::JumpForward(0), ptr as int);
                assert(kinds(commands@).take(ptr + 1) =~= kinds(commands@));
                assert(kinds(commands@).drop_last() =~= kinds(old_cmds));
                assert forall|m: int| 0 <= m <= ptr implies kinds(commands@).take(m) == kinds(
                    old_cmds,
                ).take(m) by {
                    lemma_take_kinds(old_cmds, ExecutorCommand::JumpForward(0), m);
                }
                assert forall|k: int| 0 <= k < pos_in_commands.len() implies {
                    let p = #[trigger] pos_in_commands[k] as int;
                    &&& p < commands.len()
                    &&& commands[p] == ExecutorCommand::JumpForward(0)
                    &&& depth(kinds(commands@).take(p)) == k
                    &&& forall|m: int|
                        p < m < commands.len() ==> depth(#[trigger] kinds(commands@).take(m + 1))
                            > k
                } by {
                    let p = pos_in_commands[k] as int;
                    if k < old_stack.len() {
                        assert(pos_in_commands[k] == old_stack[k]);
                        assert forall|m: int| p < m < commands.len() implies depth(
                            #[trigger] kinds(commands@).take(m + 1),
                        ) > k by {
                            if m < ptr {
                                assert(kinds(commands@).take(m + 1) == kinds(old_cmds).take(m + 1));
                            }
                        }
                    } else {
                        assert(kinds(commands@).take(ptr as int) =~= kinds(old_cmds));
                    }
                }
                assert forall|k: int| 0 <= k <= i + 1 implies depth(
                    #[trigger] string@.take(i + 1).take(k),
                ) >= 0 by {
                    if k <= i {
                        assert(string@.take(i + 1).take(k) =~= pre.take(k));
                    } else {
                        assert(string@.take(i + 1).take(k) =~= string@.take(i + 1));
                    }
                }
                assert forall|j: int|
                    0 <= j < commands.len() && (#[trigger] commands[j]) is JumpForward implies (
                    exists|k: int|
                        0 <= k < pos_in_commands.len() && pos_in_commands[k] == j) || closes_at(
                    commands@,
                    j,
                    commands[j]->JumpForward_0 as int,
                ) by {
                    if j == ptr {
                        assert(pos_in_commands[old_stack.len() as int] == j);
                    } else if exists|k: int| 0 <= k < old_stack.len() && old_stack[k] == j {
                        let k = choose|k: int| 0 <= k < old_stack.len() && old_stack[k] == j;
                        assert(pos_in_commands[k] == j);
                    } else {
                        assert(closes_at(old_cmds, j, old_cmds[j]->JumpForward_0 as int));
                        let t = old_cmds[j]->JumpForward_0 as int;
                        assert forall|m: int| j < m < t implies depth(
                            #[trigger] kinds(commands@).take(m + 1),
                        ) > depth(kinds(commands@).take(j)) by {
                            assert(kinds(commands@).take(m + 1) == kinds(old_cmds).take(m + 1));
                            assert(depth(kinds(old_cmds).take(m + 1)) > depth(
                                kinds(old_cmds).take(j),
                            ));
                        }
                    }
                }
            }
        } else if c == ']' {
            if pos_in_commands.len() == 0 {
                assert(depth(string@.take(i + 1)) < 0);
                return Err(SyntaxError::UnmatchedCloseBracket);
            }
            let pos = pos_in_commands.pop().unwrap();
            let ghost top = old_stack.len() - 1;
            assert(pos == old_stack[top]);
            commands.set(pos, ExecutorCommand::JumpForward(ptr));
            let ghost patched = commands@;
            assert(kinds(patched) =~= kinds(old_cmds));
            commands.push(ExecutorCommand::JumpBack(pos));
            proof {
                lemma_take_kinds(patched, ExecutorCommand::JumpBack(pos), ptr as int);
                assert(kinds(commands@).drop_last() =~= kinds(old_cmds));
                assert forall|m: int| 0 <= m <= ptr implies kinds(commands@).take(m) == kinds(
                    old_cmds,
                ).take(m) by {
                    lemma_take_kinds(patched, ExecutorCommand::JumpBack(pos), m);
                }
                assert(kinds(commands@).take(ptr + 1) =~= kinds(commands@));
                assert forall|k: int| 0 <= k <= i + 1 implies depth(
                    #[trigger] string@.take(i + 1).take(k),
                ) >= 0 by {
                    if k <= i {
                        assert(string@.take(i + 1).take(k) =~= pre.take(k));
                    } else {
                        assert(string@.take(i + 1).take(k) =~= string@.take(i + 1));
                    }
                }
                assert forall|k: int, l: int|
                    0 <= k < l < pos_in_commands.len() implies pos_in_commands[k]
                    < pos_in_commands[l] by {
                    assert(pos_in_commands[k] == old_stack[k]);
                    assert(pos_in_commands[l] == old_stack[l]);
                }
                assert forall|k: int| 0 <= k < pos_in_commands.len() implies {
                    let p = #[trigger] pos_in_commands[k] as int;
                    &&& p < commands.len()
                    &&& commands[p] == ExecutorCommand::JumpForward(0)
                    &&& depth(kinds(commands@).take(p)) == k
                    &&& forall|m: int|
                        p < m < commands.len() ==> depth(#[trigger] kinds(commands@).take(m + 1))
                            > k
                } by {
                    assert(pos_in_commands[k] == old_stack[k]);
                    let p = old_stack[k] as int;
                    assert(p < pos);
                    assert forall|m: int| p < m < commands.len() implies depth(
                        #[trigger] kinds(commands@).take(m + 1),
                    ) > k by {
                        if m < ptr {
                            assert(kinds(commands@).take(m + 1) == kinds(old_cmds).take(m + 1));
                        }
                    }
                }
                // the bracket just closed
                assert(closes_at(commands@, pos as int, ptr as int)) by {
                    assert forall|m: int| pos < m < ptr implies depth(
                        #[trigger] kinds(commands@).take(m + 1),
                    ) > depth(kinds(commands@).take(pos as int)) by {
                        assert(kinds(commands@).take(m + 1) == kinds(old_cmds).take(m + 1));
                    }
                }
                assert forall|j: int|
                    0 <= j < commands.len() && (#[trigger] commands[j]) is JumpForward implies (
                    exists|k: int|
                        0 <= k < pos_in_commands.len() && pos_in_commands[k] == j) || closes_at(
                    commands@,
                    j,
                    commands[j]->JumpForward_0 as int,
                ) by {
                    if j == pos {
                    } else if exists|k: int| 0 <= k < old_stack.len() && old_stack[k] == j {
                        let k = choose|k: int| 0 <= k < old_stack.len() && old_stack[k] == j;
                        if k == top {
                        } else {
                            assert(pos_in_commands[k] == j);
                        }
                    } else {
                        assert(closes_at(old_cmds, j, old_cmds[j]->JumpForward_0 as int));
                        let t = old_cmds[j]->JumpForward_0 as int;
                        assert forall|m: int| j < m < t implies depth(
                            #[trigger] kinds(commands@).take(m + 1),
                        ) > depth(kinds(commands@).take(j)) by {
                            assert(kinds(commands@).take(m + 1) == kinds(old_cmds).take(m + 1));
                            assert(depth(kinds(old_cmds).take(m + 1)) > depth(
                                kinds(old_cmds).take(j),
                            ));
                        }
                    }
                }
                assert forall|j: int|
                    0 <= j < commands.len() && (#[trigger] commands[j]) is JumpBack implies {
                    let t = commands[j]->JumpBack_0 as int;
                    0 <= t < j && commands[t] == ExecutorCommand::JumpForward(j as usize)
                } by {
                    if j < ptr {
                        let t = old_cmds[j]->JumpBack_0 as int;
                        assert(old_cmds[t] == ExecutorCommand::JumpForward(j as usize));
                        assert(t != pos);
                    }
                }
            }
        } else if c == ':' && debug {
            breakpoints.push(ptr);
            proof {
                assert forall|k: int| 0 <= k <= i + 1 implies depth(
                    #[trigger] string@.take(i + 1).take(k),
                ) >= 0 by {
                    if k <= i {
                        assert(string@.take(i + 1).take(k) =~= pre.take(k));
                    } else {
                        assert(string@.take(i + 1).take(k) =~= string@.take(i + 1));
                    }
                }
            }
        } else if c == '>' || c == '<' || c == '+' || c == '-' || c == '.' || c == ',' {
            let cmd = if c == '>' {
                ExecutorCommand::MoveRight
            } else if c == '<' {
                ExecutorCommand::MoveLeft
            } else if c == '+' {
                ExecutorCommand::Increment
            } else if c == '-' {
                ExecutorCommand::Decrement
            } else if c == '.' {
                ExecutorCommand::Output
            } else {
                ExecutorCommand::Input
            };
            commands.push(cmd);
            proof {
                lemma_take_kinds(old_cmds, cmd, ptr as int);
                assert(kinds(commands@).drop_last() =~= kinds(old_cmds));
                assert(kinds(commands@).take(ptr + 1) =~= kinds(commands@));
                assert forall|m: int| 0 <= m <= ptr implies kinds(commands@).take(m) == kinds(
                    old_cmds,
                ).take(m) by {
                    lemma_take_kinds(old_cmds, cmd, m);
                }
                assert forall|k: int| 0 <= k <= i + 1 implies depth(
                    #[trigger] string@.take(i + 1).take(k),
                ) >= 0 by {
                    if k <= i {
                        assert(string@.take(i + 1).take(k) =~= pre.take(k));
                    } else {
                        assert(string@.take(i + 1).take(k) =~= string@.take(i + 1));
                    }
                }
                assert forall|k: int| 0 <= k < pos_in_commands.len() implies {
                    let p = #[trigger] pos_in_commands[k] as int;
                    &&& p < commands.len()
                    &&& commands[p] == ExecutorCommand::JumpForward(0)
                    &&& depth(kinds(commands@).take(p)) == k
                    &&& forall|m: int|
                        p < m < commands.len() ==> depth(#[trigger] kinds(commands@).take(m + 1))
                            > k
                } by {
                    let p = pos_in_commands[k] as int;
                    assert forall|m: int| p < m < commands.len() implies depth(
                        #[trigger] kinds(commands@).take(m + 1),
                    ) > k by {
                        if m < ptr {
                            assert(kinds(commands@).take(m + 1) == kinds(old_cmds).take(m + 1));
                        }
                    }
                }
                assert forall|j: int|
                    0 <= j < commands.len() && (#[trigger] commands[j]) is JumpForward implies (
                    exists|k: int|
                        0 <= k < pos_in_commands.len() && pos_in_commands[k] == j) || closes_at(
                    commands@,
                    j,
                    commands[j]->JumpForward_0 as int,
                ) by {
                    if exists|k: int| 0 <= k < old_stack.len() && old_stack[k] == j {
                    } else {
                        assert(closes_at(old_cmds, j, old_cmds[j]->JumpForward_0 as int));
                        let t = old_cmds[j]->JumpForward_0 as int;
                        assert forall|m: int| j < m < t implies depth(
                            #[trigger] kinds(commands@).take(m + 1),
                        ) > depth(kinds(commands@).take(j)) by {
                            assert(kinds(commands@).take(m + 1) == kinds(old_cmds).take(m + 1));
                            assert(depth(kinds(old_cmds).take(m + 1)) > depth(
                                kinds(old_cmds).take(j),
                            ));
                        }
                    }
                }
            }
        } else {
            proof {
                assert forall|k: int| 0 <= k <= i + 1 implies depth(
                    #[trigger] string@.take(i + 1).take(k),
                ) >= 0 by {
                    if k <= i {
                        assert(string@.take(i + 1).take(k) =~= pre.take(k));
                    } else {
                        assert(string@.take(i + 1).take(k) =~= string@.take(i + 1));
                    }
                }
            }
        }
        i = i + 1;
    }
    assert(string@.take(n as int) =~= string@);
    if pos_in_commands.len() > 0 {
        Err(SyntaxError::UnmatchedOpenBracket)
    } else {
        proof {
            assert forall|j: int|
                0 <= j < commands.len() && (#[trigger] commands[j]) is JumpForward implies closes_at(
                commands@,
                j,
                commands[j]->JumpForward_0 as int,
            ) by {
                if exists|k: int| 0 <= k < pos_in_commands.len() && pos_in_commands[k] == j {
                }
            }
        }
        Ok((commands, breakpoints))
    }
}

} // verus!
