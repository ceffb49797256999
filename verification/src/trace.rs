//! The trace: what each layer did, in order, with the evidence for it.

use vstd::prelude::*;

use crate::text::{
    decimal, pad_left, pad_right, push_decimal, push_spaces, same_text, spaces,
};

verus! {

/// One thing one layer did, with the evidence for it.
#[derive(Debug, Clone, PartialEq, Eq)]
pub struct Step {
    pub layer: &'static str,
    pub what: String,
}

/// Everything the layers did during one operation, in order.
#[derive(Debug, Clone, PartialEq, Eq)]
pub struct Trace {
    pub steps: Vec<Step>,
}

/// The layer names of `steps`, one per step, in order.
pub open spec fn step_layers(steps: Seq<Step>) -> Seq<Seq<char>> {
    steps.map_values(|s: Step| s.layer@)
}

/// The distinct names of `names`, each kept at its first appearance.
pub open spec fn first_appearances(names: Seq<Seq<char>>) -> Seq<Seq<char>>
    decreases names.len(),
{
    if names.len() == 0 {
        seq![]
    } else {
        let before = first_appearances(names.drop_last());
        if before.contains(names.last()) {
            before
        } else {
            before.push(names.last())
        }
    }
}

/// The line that the `n`-th step (counted from 1) takes in the rendered trace:
/// its number right-aligned in two columns, its layer left-aligned in nine,
/// then what it did.
pub open spec fn step_line(n: nat, step: Step) -> Seq<char> {
    pad_left(decimal(n), 2) + ". ["@ + pad_right(step.layer@, 9) + "] "@ + step.what@ + seq!['\n']
}

/// The rendered trace: one line per step, numbered from 1.
pub open spec fn rendered(steps: Seq<Step>) -> Seq<char>
    decreases steps.len(),
{
    if steps.len() == 0 {
        seq![]
    } else {
        rendered(steps.drop_last()) + step_line(steps.len(), steps.last())
    }
}

impl Default for Trace {
    fn default() -> (t: Trace)
        ensures
            t.steps@ == Seq::<Step>::empty(),
    {
        Trace { steps: Vec::new() }
    }
}

/// Whether `names` holds a string with the characters of `name`.
fn holds_name(names: &Vec<&'static str>, name: &str) -> (r: bool)
    ensures
        r == names@.map_values(|s: &'static str| s@).contains(name@),
{
    let ghost views = names@.map_values(|s: &'static str| s@);
    let mut i: usize = 0;
    while i < names.len()
        invariant
            i <= names@.len(),
            views == names@.map_values(|s: &'static str| s@),
            forall|j: int| 0 <= j < i ==> views[j] != name@,
        decreases names@.len() - i,
    {
        if same_text(names[i], name) {
            assert(views[i as int] == name@);
            return true;
        }
        i = i + 1;
    }
    false
}

impl Trace {
    /// Records that `layer` did `what`.
    pub fn note(&mut self, layer: &'static str, what: String)
        ensures
            final(self).steps@ == old(self).steps@.push(Step { layer, what }),
    {
        self.steps.push(Step { layer, what });
    }

    /// The distinct layers that took part, in order of first appearance.
    pub fn layers(&self) -> (out: Vec<&'static str>)
        ensures
            out@.map_values(|s: &'static str| s@) == first_appearances(step_layers(self.steps@)),
    {
        let ghost names = step_layers(self.steps@);
        let mut out: Vec<&'static str> = Vec::new();
        let mut i: usize = 0;
        while i < self.steps.len()
            invariant
                i <= self.steps@.len(),
                names == step_layers(self.steps@),
                out@.map_values(|s: &'static str| s@) == first_appearances(names.take(i as int)),
            decreases self.steps@.len() - i,
        {
            let layer: &'static str = self.steps[i].layer;
            assert(names.take(i + 1).drop_last() =~= names.take(i as int));
            assert(names.take(i + 1).last() == layer@);
            if !holds_name(&out, layer) {
                let ghost before = out@;
                out.push(layer);
                assert(out@.map_values(|s: &'static str| s@) =~= before.map_values(
                    |s: &'static str| s@,
                ).push(layer@));
            }
            i = i + 1;
        }
        assert(names.take(self.steps@.len() as int) =~= names);
        out
    }

    /// The trace as text, one numbered line per step.
    pub fn render(&self) -> (text: String)
        ensures
            text@ == rendered(self.steps@),
    {
        let mut text = String::new();
        let mut i: usize = 0;
        while i < self.steps.len()
            invariant
                i <= self.steps@.len(),
                text@ == rendered(self.steps@.take(i as int)),
            decreases self.steps@.len() - i,
        {
            let step: &Step = &self.steps[i];
            push_step_line(&mut text, (i as u64) + 1, step);
            assert(self.steps@.take(i + 1).drop_last() =~= self.steps@.take(i as int));
            assert(self.steps@.take(i + 1).last() == *step);
            i = i + 1;
        }
        assert(self.steps@.take(self.steps@.len() as int) =~= self.steps@);
        text
    }
}

/// Appends the line of the `n`-th step to `text`.
fn push_step_line(text: &mut String, n: u64, step: &Step)
    ensures
        final(text)@ == old(text)@ + step_line(n as nat, *step),
{
    if n < 10 {
        text.push(' ');
    }
    push_decimal(text, n);
    text.append(". [");
    text.append(step.layer);
    let width: usize = step.layer.unicode_len();
    if width < 9 {
        push_spaces(text, 9 - width);
    }
    text.append("] ");
    text.append(step.what.as_str());
    text.push('\n');
    proof {
        lemma_decimal_len(n as nat);
        if n < 10 {
            assert(pad_left(decimal(n as nat), 2) =~= spaces(1) + decimal(n as nat));
        }
        if width < 9 {
            assert(pad_right(step.layer@, 9) =~= step.layer@ + spaces((9 - width) as nat));
        }
        assert(text@ =~= old(text)@ + step_line(n as nat, *step));
    }
}

proof fn lemma_decimal_len(n: nat)
    ensures
        n < 10 ==> decimal(n).len() == 1,
        n >= 10 ==> decimal(n).len() >= 2,
    decreases n,
{
    if n >= 10 {
        lemma_decimal_len(n / 10);
    }
}

/// A name is at its first appearance in `names` at position `p`.
pub open spec fn first_seen_at(names: Seq<Seq<char>>, name: Seq<char>, p: int) -> bool {
    &&& 0 <= p < names.len()
    &&& names[p] == name
    &&& !names.take(p).contains(name)
}

/// The layers of a trace name no layer twice.
pub proof fn layers_are_distinct(names: Seq<Seq<char>>)
    ensures
        first_appearances(names).no_duplicates(),
    decreases names.len(),
{
    if names.len() > 0 {
        layers_are_distinct(names.drop_last());
    }
}

/// A layer is among the layers of a trace exactly when some step of the trace
/// was done by it.
pub proof fn layers_are_the_steps_layers(names: Seq<Seq<char>>, name: Seq<char>)
    ensures
        first_appearances(names).contains(name) <==> names.contains(name),
    decreases names.len(),
{
    if names.len() > 0 {
        let rest = names.drop_last();
        layers_are_the_steps_layers(rest, name);
        layers_are_the_steps_layers(rest, names.last());
        if names.contains(name) && name != names.last() {
            let i = choose|i: int| 0 <= i < names.len() && names[i] == name;
            assert(rest[i] == name);
        }
        if rest.contains(name) {
            let i = choose|i: int| 0 <= i < rest.len() && rest[i] == name;
            assert(names[i] == name);
        }
        let before = first_appearances(rest);
        if !before.contains(names.last()) {
            assert(before.push(names.last())[before.len() as int] == names.last());
            if before.contains(name) {
                let i = choose|i: int| 0 <= i < before.len() && before[i] == name;
                assert(before.push(names.last())[i] == name);
            }
            if before.push(names.last()).contains(name) && name != names.last() {
                let i = choose|i: int|
                    0 <= i < before.len() + 1 && before.push(names.last())[i] == name;
                assert(before[i] == name);
            }
        }
    }
}

/// The layers of a trace come in the order of their first appearance: of two
/// layers, the one listed first did its first step first.
pub proof fn layers_keep_the_order_of_first_appearance(
    names: Seq<Seq<char>>,
    i: int,
    j: int,
    p: int,
    q: int,
)
    requires
        0 <= i < j < first_appearances(names).len(),
        first_seen_at(names, first_appearances(names)[i], p),
        first_seen_at(names, first_appearances(names)[j], q),
    ensures
        p < q,
    decreases names.len(),
{
    let out = first_appearances(names);
    let rest = names.drop_last();
    let before = first_appearances(rest);
    let last = names.len() - 1;
    layers_are_distinct(names);
    layers_are_the_steps_layers(rest, out[i]);
    layers_are_the_steps_layers(rest, out[j]);
    assert(out[i] == before[i]) by {
        if !before.contains(names.last()) {
            assert(out == before.push(names.last()));
        }
    }
    // Every layer already listed for the shorter trace first appears there.
    if before.contains(out[i]) {
        assert(rest.contains(out[i]));
        let k = choose|k: int| 0 <= k < rest.len() && rest[k] == out[i];
        if p == last {
            assert(names.take(p) =~= rest);
            assert(false);
        }
        assert(names.take(p) =~= rest.take(p));
    }
    if j < before.len() {
        assert(out[j] == before[j]) by {
            if !before.contains(names.last()) {
                assert(out == before.push(names.last()));
            }
        }
        assert(before[j] == out[j]);
        assert(before.contains(out[j]));
        assert(rest.contains(out[j]));
        if q == last {
            assert(names.take(q) =~= rest);
            assert(false);
        }
        assert(names.take(q) =~= rest.take(q));
        assert(before.contains(out[i]));
        layers_keep_the_order_of_first_appearance(rest, i, j, p, q);
    } else {
        // The layer listed last is the last step's, new to the shorter trace.
        assert(!before.contains(names.last()));
        assert(out[j] == names.last());
        assert(!rest.contains(out[j]));
        if q < last {
            assert(rest[q] == out[j]);
            assert(false);
        }
        assert(before.contains(out[i]));
        assert(p < last);
    }
}

/// Noting a step adds its layer to the layers of the trace exactly when that
/// layer had not taken part yet.
pub proof fn note_adds_a_new_layer(steps: Seq<Step>, step: Step)
    ensures
        first_appearances(step_layers(steps.push(step))) == if first_appearances(
            step_layers(steps),
        ).contains(step.layer@) {
            first_appearances(step_layers(steps))
        } else {
            first_appearances(step_layers(steps)).push(step.layer@)
        },
{
    assert(step_layers(steps.push(step)).drop_last() =~= step_layers(steps));
}

/// Noting a step appends its numbered line to the rendered trace and leaves
/// the earlier lines as they were.
pub proof fn note_appends_one_line(steps: Seq<Step>, step: Step)
    ensures
        rendered(steps.push(step)) == rendered(steps) + step_line(steps.len() + 1, step),
{
    assert(steps.push(step).drop_last() =~= steps);
}

} // verus!
