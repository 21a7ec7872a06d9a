use vstd::prelude::*;

use crate::syntax::{ExprKind, ExprNode, is_revset_kind, might_be_revset};

verus! {

/// One two-column cell of the tree drawing in front of a node's text.
#[derive(PartialEq, Eq, Structural, Clone, Copy, Debug)]
pub enum Glyph {
    /// A branch to a node that has a later sibling: `├─`.
    Branch,
    /// A branch to the last child: `└─`.
    LastBranch,
    /// Continuation under a node that has a later sibling: `│ `.
    Bar,
    /// Continuation under a last child: two blanks.
    Blank,
}

/// The form that a node's own glyph takes on the rows of its descendants.
pub open spec fn continued(g: Glyph) -> Glyph {
    match g {
        Glyph::Branch => Glyph::Bar,
        Glyph::LastBranch => Glyph::Blank,
        other => other,
    }
}

/// The indentation handed to the children of a node drawn with `indent`:
/// its last glyph takes its continuation form.
pub open spec fn continuation(indent: Seq<Glyph>) -> Seq<Glyph> {
    if indent.len() == 0 {
        indent
    } else {
        indent.update(indent.len() - 1, continued(indent.last()))
    }
}

/// One visited node: where it sits in the tree (child positions from the
/// root, counted over all children, shown or not), its drawing, and its text.
pub struct Step {
    pub path: Vec<usize>,
    pub indent: Vec<Glyph>,
    pub text: String,
}

/// The ghost form of a `Step`.
pub struct StepView {
    pub path: Seq<usize>,
    pub indent: Seq<Glyph>,
    pub text: Seq<char>,
}

impl View for Step {
    type V = StepView;

    open spec fn view(&self) -> StepView {
        StepView { path: self.path@, indent: self.indent@, text: self.text@ }
    }
}

pub open spec fn step_of(node: ExprNode, indent: Seq<Glyph>, path: Seq<usize>) -> StepView {
    StepView { path, indent, text: node.text@ }
}

/// Whether the element `c` of a child list is visited: in a function call's
/// arguments (`filtered`) only those that may denote a revset.
pub open spec fn shown(c: ExprNode, filtered: bool) -> bool {
    !filtered || is_revset_kind(c.kind)
}

/// Whether some child after position `i` is visited.
pub open spec fn shown_after(cs: Seq<ExprNode>, i: int, filtered: bool) -> bool {
    exists|j: int| i < j < cs.len() && shown(#[trigger] cs[j], filtered)
}

/// The glyph of the visited child at position `i`.
pub open spec fn child_glyph(cs: Seq<ExprNode>, i: int, filtered: bool) -> Glyph {
    if shown_after(cs, i, filtered) {
        Glyph::Branch
    } else {
        Glyph::LastBranch
    }
}

/// The steps of the walk over `node`, drawn with `indent` at `path`: the node
/// itself, then its visited children in order, each with a branch glyph that
/// says whether a visited sibling follows it.
pub open spec fn steps(node: ExprNode, indent: Seq<Glyph>, path: Seq<usize>) -> Seq<StepView>
    decreases node, 0nat,
{
    let inner = continuation(indent);
    seq![step_of(node, indent, path)] + match node.kind {
        ExprKind::Unary(c) => steps(*c, inner.push(Glyph::LastBranch), path.push(0)),
        ExprKind::Binary(l, r) => steps(*l, inner.push(Glyph::Branch), path.push(0)) + steps(
            *r,
            inner.push(Glyph::LastBranch),
            path.push(1),
        ),
        ExprKind::UnionAll(cs) => list_steps(cs@, cs@.len() as nat, false, inner, path),
        ExprKind::FunctionCall(_, args) => list_steps(args@, args@.len() as nat, true, inner, path),
        ExprKind::AliasExpanded(_, e) => if is_revset_kind(e.kind) {
            steps(*e, inner.push(Glyph::LastBranch), path.push(0))
        } else {
            Seq::empty()
        },
        _ => Seq::empty(),
    }
}

/// The steps over the first `n` children in `cs` under a parent drawn at
/// `path`, whose children get `inner` in front of their own glyph.
pub open spec fn list_steps(
    cs: Seq<ExprNode>,
    n: nat,
    filtered: bool,
    inner: Seq<Glyph>,
    path: Seq<usize>,
) -> Seq<StepView>
    decreases cs, n,
{
    if n == 0 || n > cs.len() {
        Seq::empty()
    } else {
        let i = n - 1;
        list_steps(cs, i as nat, filtered, inner, path) + if shown(cs[i], filtered) {
            steps(cs[i], inner.push(child_glyph(cs, i, filtered)), path.push(i as usize))
        } else {
            Seq::empty()
        }
    }
}

} // verus!

verus! {

pub open spec fn views(s: Seq<Step>) -> Seq<StepView> {
    s.map_values(|x: Step| x@)
}

proof fn lemma_views_push(s: Seq<Step>, x: Step)
    ensures
        views(s.push(x)) == views(s).push(x@),
{
    assert(views(s.push(x)) =~= views(s).push(x@));
}

fn copy_glyphs(v: &Vec<Glyph>) -> (r: Vec<Glyph>)
    ensures
        r@ == v@,
{
    let mut r: Vec<Glyph> = Vec::new();
    let mut i: usize = 0;
    while i < v.len()
        invariant
            i <= v.len(),
            r@ == v@.subrange(0, i as int),
        decreases v.len() - i,
    {
        r.push(v[i]);
        i += 1;
    }
    assert(r@ =~= v@);
    r
}

fn copy_path(v: &Vec<usize>) -> (r: Vec<usize>)
    ensures
        r@ == v@,
{
    let mut r: Vec<usize> = Vec::new();
    let mut i: usize = 0;
    while i < v.len()
        invariant
            i <= v.len(),
            r@ == v@.subrange(0, i as int),
        decreases v.len() - i,
    {
        r.push(v[i]);
        i += 1;
    }
    assert(r@ =~= v@);
    r
}

/// Records `node`'s own step, then leaves `indent` in the form that its
/// children are drawn under.
fn walk_node(node: &ExprNode, indent: &mut Vec<Glyph>, path: &mut Vec<usize>, out: &mut Vec<Step>)
    ensures
        views(final(out)@) == views(old(out)@) + steps(*node, old(indent)@, old(path)@),
        final(indent)@ == continuation(old(indent)@),
        final(path)@ == old(path)@,
    decreases node, 0nat,
{
    let ghost out0 = out@;
    let ghost indent0 = indent@;
    let step = Step { path: copy_path(path), indent: copy_glyphs(indent), text: node.text.clone() };
    proof {
        lemma_views_push(out@, step);
    }
    out.push(step);
    let n = indent.len();
    if n > 0 {
        match indent[n - 1] {
            Glyph::Branch => indent.set(n - 1, Glyph::Bar),
            Glyph::LastBranch => indent.set(n - 1, Glyph::Blank),
            _ => {},
        }
    }
    assert(indent@ =~= continuation(indent0));
    match &node.kind {
        ExprKind::Unary(c) => {
            walk_child(c, Glyph::LastBranch, 0, indent, path, out);
        },
        ExprKind::Binary(l, r) => {
            walk_child(l, Glyph::Branch, 0, indent, path, out);
            walk_child(r, Glyph::LastBranch, 1, indent, path, out);
        },
        ExprKind::UnionAll(cs) => {
            walk_list(cs, false, indent, path, out);
        },
        ExprKind::FunctionCall(_, args) => {
            walk_list(args, true, indent, path, out);
        },
        ExprKind::AliasExpanded(_, e) => {
            if might_be_revset(&e.kind) {
                walk_child(e, Glyph::LastBranch, 0, indent, path, out);
            }
        },
        _ => {},
    }
    assert(views(out@) =~= views(out0) + steps(*node, indent0, path@));
}

/// Walks the child `c` at position `i`, drawn with the glyph `g`.
fn walk_child(
    c: &ExprNode,
    g: Glyph,
    i: usize,
    indent: &mut Vec<Glyph>,
    path: &mut Vec<usize>,
    out: &mut Vec<Step>,
)
    ensures
        views(final(out)@) == views(old(out)@) + steps(*c, old(indent)@.push(g), old(path)@.push(i)),
        final(indent)@ == old(indent)@,
        final(path)@ == old(path)@,
    decreases c, 1nat,
{
    let ghost indent0 = indent@;
    indent.push(g);
    path.push(i);
    walk_node(c, indent, path, out);
    indent.pop();
    path.pop();
    assert(indent@ =~= indent0);
}

/// Walks the children in `cs`; for a function call's arguments (`filtered`)
/// only those that may denote a revset.
fn walk_list(
    cs: &Vec<ExprNode>,
    filtered: bool,
    indent: &mut Vec<Glyph>,
    path: &mut Vec<usize>,
    out: &mut Vec<Step>,
)
    ensures
        views(final(out)@) == views(old(out)@) + list_steps(
            cs@,
            cs@.len() as nat,
            filtered,
            old(indent)@,
            old(path)@,
        ),
        final(indent)@ == old(indent)@,
        final(path)@ == old(path)@,
    decreases cs, 2nat,
{
    let mut last: usize = cs.len();
    let mut k: usize = 0;
    while k < cs.len()
        invariant
            k <= cs.len(),
            last <= cs.len(),
            last == cs.len() ==> forall|j: int| 0 <= j < k ==> !shown(#[trigger] cs@[j], filtered),
            last < cs.len() ==> last < k && shown(cs@[last as int], filtered) && forall|j: int|
                last < j < k ==> !shown(#[trigger] cs@[j], filtered),
        decreases cs.len() - k,
    {
        if !filtered || might_be_revset(&cs[k].kind) {
            last = k;
        }
        k += 1;
    }
    let ghost out0 = out@;
    let ghost indent0 = indent@;
    let ghost path0 = path@;
    let mut i: usize = 0;
    while i < cs.len()
        invariant
            i <= cs.len(),
            last <= cs.len(),
            indent@ == indent0,
            path@ == path0,
            views(out@) == views(out0) + list_steps(cs@, i as nat, filtered, indent0, path0),
            last == cs.len() ==> forall|j: int| 0 <= j < cs.len() ==> !shown(#[trigger] cs@[j], filtered),
            last < cs.len() ==> shown(cs@[last as int], filtered) && forall|j: int|
                last < j < cs.len() ==> !shown(#[trigger] cs@[j], filtered),
        decreases cs.len() - i,
    {
        if !filtered || might_be_revset(&cs[i].kind) {
            let g = if i == last {
                Glyph::LastBranch
            } else {
                Glyph::Branch
            };
            proof {
                if i != last {
                    assert(shown(cs@[i as int], filtered));
                    if last == cs.len() {
                        assert(!shown(cs@[i as int], filtered));
                    }
                    if last < i {
                        assert(!shown(cs@[i as int], filtered));
                    }
                    assert(shown(cs@[last as int], filtered));
                    assert(shown_after(cs@, i as int, filtered));
                }
            }
            assert(g == child_glyph(cs@, i as int, filtered));
            walk_child(&cs[i], g, i, indent, path, out);
        }
        assert(views(out@) =~= views(out0) + list_steps(cs@, (i + 1) as nat, filtered, indent0, path0));
        i += 1;
    }
}

/// The walk over a whole expression, from its root.
pub fn walk_steps(root: &ExprNode) -> (r: Vec<Step>)
    ensures
        views(r@) == steps(*root, Seq::empty(), Seq::empty()),
{
    let mut indent: Vec<Glyph> = Vec::new();
    let mut path: Vec<usize> = Vec::new();
    let mut out: Vec<Step> = Vec::new();
    walk_node(root, &mut indent, &mut path, &mut out);
    assert(views(out@) =~= steps(*root, indent@, path@));
    out
}

} // verus!

verus! {

proof fn lemma_hidden_list_empty(
    cs: Seq<ExprNode>,
    n: nat,
    inner: Seq<Glyph>,
    path: Seq<usize>,
)
    requires
        forall|i: int| 0 <= i < cs.len() ==> !is_revset_kind(#[trigger] cs[i].kind),
    ensures
        list_steps(cs, n, true, inner, path) == Seq::<StepView>::empty(),
    decreases n,
{
    if n > 0 && n <= cs.len() {
        lemma_hidden_list_empty(cs, (n - 1) as nat, inner, path);
        assert(!is_revset_kind(cs[n - 1].kind));
        assert(list_steps(cs, n, true, inner, path) =~= Seq::<StepView>::empty());
    }
}

/// A node under a unary operator is walked on its own: the operator's step is
/// followed by the operand's step, whatever the operand's result implies for
/// the operator's.
pub proof fn lemma_unary_operand_has_own_step(node: ExprNode, indent: Seq<Glyph>, path: Seq<usize>)
    requires
        node.kind is Unary,
    ensures
        steps(node, indent, path).len() >= 2,
        steps(node, indent, path)[0] == step_of(node, indent, path),
        steps(node, indent, path)[1] == step_of(
            *node.kind->Unary_0,
            continuation(indent).push(Glyph::LastBranch),
            path.push(0),
        ),
{
    let c = *node.kind->Unary_0;
    let inner = continuation(indent).push(Glyph::LastBranch);
    assert(steps(c, inner, path.push(0))[0] == step_of(c, inner, path.push(0)));
}

/// A function call whose arguments are all string or pattern literals gets
/// one step, its own: no literal argument is walked.
pub proof fn lemma_literal_arguments_skipped(node: ExprNode, indent: Seq<Glyph>, path: Seq<usize>)
    requires
        node.kind is FunctionCall,
        forall|i: int|
            0 <= i < node.kind->FunctionCall_1@.len() ==> !is_revset_kind(
                #[trigger] node.kind->FunctionCall_1@[i].kind,
            ),
    ensures
        steps(node, indent, path) == seq![step_of(node, indent, path)],
{
    let args = node.kind->FunctionCall_1@;
    lemma_hidden_list_empty(args, args.len() as nat, continuation(indent), path);
    assert(steps(node, indent, path) =~= seq![step_of(node, indent, path)]);
}

/// An alias reference is walked, then the body it expanded to, once, as its
/// last child, where that body may denote a revset; otherwise the reference
/// alone is walked.
pub proof fn lemma_alias_body_walked_once(node: ExprNode, indent: Seq<Glyph>, path: Seq<usize>)
    requires
        node.kind is AliasExpanded,
    ensures
        ({
            let body = *node.kind->AliasExpanded_1;
            steps(node, indent, path) == if is_revset_kind(body.kind) {
                seq![step_of(node, indent, path)] + steps(
                    body,
                    continuation(indent).push(Glyph::LastBranch),
                    path.push(0),
                )
            } else {
                seq![step_of(node, indent, path)]
            }
        }),
{
    let body = *node.kind->AliasExpanded_1;
    if !is_revset_kind(body.kind) {
        assert(steps(node, indent, path) =~= seq![step_of(node, indent, path)]);
    }
}

} // verus!

verus! {

/// Step `s` lies below a node drawn with `indent` at `path`: its path extends
/// the node's, by as many positions as its drawing has glyphs beyond `indent`.
pub open spec fn lies_below(s: StepView, indent: Seq<Glyph>, path: Seq<usize>) -> bool {
    &&& path.is_prefix_of(s.path)
    &&& s.indent.len() >= indent.len()
    &&& s.indent.len() - indent.len() == s.path.len() - path.len()
}

pub open spec fn all_below(ss: Seq<StepView>, indent: Seq<Glyph>, path: Seq<usize>) -> bool {
    forall|k: int| 0 <= k < ss.len() ==> lies_below(#[trigger] ss[k], indent, path)
}

proof fn lemma_all_below_concat(a: Seq<StepView>, b: Seq<StepView>, indent: Seq<Glyph>, path: Seq<usize>)
    requires
        all_below(a, indent, path),
        all_below(b, indent, path),
    ensures
        all_below(a + b, indent, path),
{
    assert forall|k: int| 0 <= k < (a + b).len() implies lies_below(#[trigger] (a + b)[k], indent, path) by {
        if k < a.len() {
            assert((a + b)[k] == a[k]);
        } else {
            assert((a + b)[k] == b[k - a.len()]);
        }
    }
}

/// What lies below a child lies below its parent.
proof fn lemma_all_below_parent(
    ss: Seq<StepView>,
    g: Glyph,
    i: usize,
    indent: Seq<Glyph>,
    path: Seq<usize>,
)
    requires
        all_below(ss, indent.push(g), path.push(i)),
    ensures
        all_below(ss, indent, path),
{
    assert forall|k: int| 0 <= k < ss.len() implies lies_below(#[trigger] ss[k], indent, path) by {
        let cp = path.push(i);
        let p = ss[k].path;
        assert(lies_below(ss[k], indent.push(g), cp));
        assert(p.subrange(0, path.len() as int) =~= cp.subrange(0, path.len() as int));
    }
}

proof fn lemma_list_steps_below(
    cs: Seq<ExprNode>,
    n: nat,
    filtered: bool,
    inner: Seq<Glyph>,
    path: Seq<usize>,
)
    ensures
        all_below(list_steps(cs, n, filtered, inner, path), inner, path),
    decreases cs, n,
{
    if n > 0 && n <= cs.len() {
        let i = n - 1;
        lemma_list_steps_below(cs, i as nat, filtered, inner, path);
        let a = list_steps(cs, i as nat, filtered, inner, path);
        if shown(cs[i], filtered) {
            let g = child_glyph(cs, i, filtered);
            lemma_steps_below(cs[i], inner.push(g), path.push(i as usize));
            lemma_all_below_parent(steps(cs[i], inner.push(g), path.push(i as usize)), g, i as usize, inner, path);
            lemma_all_below_concat(a, steps(cs[i], inner.push(g), path.push(i as usize)), inner, path);
        } else {
            assert(list_steps(cs, n, filtered, inner, path) =~= a);
        }
    }
}

/// Every step of the walk over a node lies below it: its path extends the
/// node's path, and it is drawn with one more glyph for each level further
/// down.
pub proof fn lemma_steps_below(node: ExprNode, indent: Seq<Glyph>, path: Seq<usize>)
    ensures
        all_below(steps(node, indent, path), indent, path),
    decreases node, 0nat,
{
    let inner = continuation(indent);
    let head = seq![step_of(node, indent, path)];
    assert(path.is_prefix_of(path));
    assert(all_below(head, inner, path)) by {
        assert(head[0] == step_of(node, indent, path));
    }
    let rest = match node.kind {
        ExprKind::Unary(c) => steps(*c, inner.push(Glyph::LastBranch), path.push(0)),
        ExprKind::Binary(l, r) => steps(*l, inner.push(Glyph::Branch), path.push(0)) + steps(
            *r,
            inner.push(Glyph::LastBranch),
            path.push(1),
        ),
        ExprKind::UnionAll(cs) => list_steps(cs@, cs@.len() as nat, false, inner, path),
        ExprKind::FunctionCall(_, args) => list_steps(args@, args@.len() as nat, true, inner, path),
        ExprKind::AliasExpanded(_, e) => if is_revset_kind(e.kind) {
            steps(*e, inner.push(Glyph::LastBranch), path.push(0))
        } else {
            Seq::empty()
        },
        _ => Seq::empty(),
    };
    match node.kind {
        ExprKind::Unary(c) => {
            lemma_steps_below(*c, inner.push(Glyph::LastBranch), path.push(0));
            lemma_all_below_parent(rest, Glyph::LastBranch, 0, inner, path);
        },
        ExprKind::Binary(l, r) => {
            let a = steps(*l, inner.push(Glyph::Branch), path.push(0));
            let b = steps(*r, inner.push(Glyph::LastBranch), path.push(1));
            lemma_steps_below(*l, inner.push(Glyph::Branch), path.push(0));
            lemma_steps_below(*r, inner.push(Glyph::LastBranch), path.push(1));
            lemma_all_below_parent(a, Glyph::Branch, 0, inner, path);
            lemma_all_below_parent(b, Glyph::LastBranch, 1, inner, path);
            lemma_all_below_concat(a, b, inner, path);
        },
        ExprKind::UnionAll(cs) => {
            lemma_list_steps_below(cs@, cs@.len() as nat, false, inner, path);
        },
        ExprKind::FunctionCall(_, args) => {
            lemma_list_steps_below(args@, args@.len() as nat, true, inner, path);
        },
        ExprKind::AliasExpanded(_, e) => {
            if is_revset_kind(e.kind) {
                lemma_steps_below(*e, inner.push(Glyph::LastBranch), path.push(0));
                lemma_all_below_parent(rest, Glyph::LastBranch, 0, inner, path);
            }
        },
        _ => {},
    }
    assert(all_below(rest, inner, path));
    lemma_all_below_concat(head, rest, inner, path);
    assert(steps(node, indent, path) == head + rest);
    assert(inner.len() == indent.len());
}

} // verus!
