//! Building plans for pipelines: which elements are made, how they are set up, and how they are
//! put together, line by line.

use vstd::prelude::*;

verus! {

/// The value of a property of an element, or of a field of its caps.
#[derive(Debug)]
pub enum Value {
    Flag(bool),
    Int(i32),
    UInt(u32),
    ULong(u64),
    Text(String),
    /// A text that stands for a value of the property's own type.
    Parsed(String),
    Fraction(i32, i32),
}

/// The mathematical model of a `Value`.
pub enum ValueView {
    Flag(bool),
    Int(i32),
    UInt(u32),
    ULong(u64),
    Text(Seq<char>),
    Parsed(Seq<char>),
    Fraction(i32, i32),
}

impl View for Value {
    type V = ValueView;

    open spec fn view(&self) -> ValueView {
        match *self {
            Value::Flag(v) => ValueView::Flag(v),
            Value::Int(v) => ValueView::Int(v),
            Value::UInt(v) => ValueView::UInt(v),
            Value::ULong(v) => ValueView::ULong(v),
            Value::Text(v) => ValueView::Text(v@),
            Value::Parsed(v) => ValueView::Parsed(v@),
            Value::Fraction(n, d) => ValueView::Fraction(n, d),
        }
    }
}

/// One field of a description of media.
#[derive(Debug)]
pub struct CapsField {
    pub name: &'static str,
    pub value: Value,
}

/// A description of media, as an element gives or takes it.
#[derive(Debug)]
pub struct MediaCaps {
    pub media_type: &'static str,
    pub fields: Vec<CapsField>,
}

/// The mathematical model of a `MediaCaps`: the type, and the fields with their names.
pub struct MediaCapsView {
    pub media_type: Seq<char>,
    pub fields: Seq<(Seq<char>, ValueView)>,
}

impl View for MediaCaps {
    type V = MediaCapsView;

    open spec fn view(&self) -> MediaCapsView {
        MediaCapsView {
            media_type: self.media_type@,
            fields: self.fields@.map_values(|field: CapsField| (field.name@, field.value@)),
        }
    }
}

/// In what way a source of pushed frames can be moved to another place of the stream.
#[derive(Clone, Copy, Debug, PartialEq, Eq, Structural)]
pub enum StreamType {
    /// It cannot: the stream is continuous.
    Stream,
    Seekable,
    RandomAccess,
}

/// The settings of an element that frames are pushed into.
#[derive(Clone, Copy, Debug, PartialEq, Eq, Structural)]
pub struct SourceSettings {
    pub is_live: bool,
    pub block: bool,
    /// In milliseconds.
    pub min_latency: i64,
    pub emit_signals: bool,
    pub max_bytes: u64,
    pub do_timestamp: bool,
    pub stream_type: StreamType,
}

/// The condition under which a line is carried out.
#[derive(Clone, Copy, Debug, PartialEq, Eq, Structural)]
pub enum When {
    Always,
    /// The optional element could be made.
    Made(usize),
    /// The optional element could not be made.
    Missing(usize),
}

/// One step of a building plan. Elements go by the order in which they are made, from 0.
#[derive(Debug)]
pub enum Step {
    /// Makes an element of a kind, under a name. It is an error if that cannot be done.
    Make { kind: &'static str, name: String },
    /// Makes an element of one kind or, where that cannot be done, of another. It is an error if
    /// neither can be done.
    MakeEither {
        kind: &'static str,
        name: String,
        other_kind: &'static str,
        other_name: String,
    },
    /// Makes an element if its kind is there.
    TryMake { kind: &'static str, name: String },
    /// Sets up an element as a source of pushed frames.
    SetUpSource { element: usize, settings: SourceSettings },
    /// Sets a property.
    Assign { element: usize, property: &'static str, value: Value },
    /// Says what media a source gives.
    Describe { element: usize, caps: MediaCaps },
    /// Puts elements into the bin.
    Insert { elements: Vec<usize> },
    /// Links elements into a chain.
    Link { elements: Vec<usize> },
    /// Links two elements, for one sort of media.
    LinkFiltered { from: usize, to: usize, caps: MediaCaps },
    /// Links two elements as soon as the first one has found out what it gives.
    LinkLater { from: usize, to: usize, pad: &'static str },
    /// Gives the bin a pad of its own, which stands for a pad of an element.
    Expose { element: usize, pad: &'static str },
}

/// The mathematical model of a `Step`.
pub enum StepView {
    Make { kind: Seq<char>, name: Seq<char> },
    MakeEither {
        kind: Seq<char>,
        name: Seq<char>,
        other_kind: Seq<char>,
        other_name: Seq<char>,
    },
    TryMake { kind: Seq<char>, name: Seq<char> },
    SetUpSource { element: usize, settings: SourceSettings },
    Assign { element: usize, property: Seq<char>, value: ValueView },
    Describe { element: usize, caps: MediaCapsView },
    Insert { elements: Seq<usize> },
    Link { elements: Seq<usize> },
    LinkFiltered { from: usize, to: usize, caps: MediaCapsView },
    LinkLater { from: usize, to: usize, pad: Seq<char> },
    Expose { element: usize, pad: Seq<char> },
}

impl View for Step {
    type V = StepView;

    open spec fn view(&self) -> StepView {
        match *self {
            Step::Make { kind, name } => StepView::Make { kind: kind@, name: name@ },
            Step::MakeEither { kind, name, other_kind, other_name } => StepView::MakeEither {
                kind: kind@,
                name: name@,
                other_kind: other_kind@,
                other_name: other_name@,
            },
            Step::TryMake { kind, name } => StepView::TryMake { kind: kind@, name: name@ },
            Step::SetUpSource { element, settings } => StepView::SetUpSource { element, settings },
            Step::Assign { element, property, value } => StepView::Assign {
                element,
                property: property@,
                value: value@,
            },
            Step::Describe { element, caps } => StepView::Describe { element, caps: caps@ },
            Step::Insert { elements } => StepView::Insert { elements: elements@ },
            Step::Link { elements } => StepView::Link { elements: elements@ },
            Step::LinkFiltered { from, to, caps } => StepView::LinkFiltered {
                from,
                to,
                caps: caps@,
            },
            Step::LinkLater { from, to, pad } => StepView::LinkLater { from, to, pad: pad@ },
            Step::Expose { element, pad } => StepView::Expose { element, pad: pad@ },
        }
    }
}

/// How an element is made: what is to be done, once so many tries have failed.
#[derive(Debug)]
pub enum Making<'a> {
    /// Try to make an element of this kind, under this name. If it can be made, it is the
    /// element of the step.
    Try { kind: &'a str, name: &'a str },
    /// Go on without the element.
    GoWithout,
    /// Give up, with the error of the last try.
    GiveUp,
    /// The step makes no element.
    Nothing,
}

/// The mathematical model of a `Making`.
pub enum MakingView {
    Try { kind: Seq<char>, name: Seq<char> },
    GoWithout,
    GiveUp,
    Nothing,
}

impl<'a> View for Making<'a> {
    type V = MakingView;

    open spec fn view(&self) -> MakingView {
        match *self {
            Making::Try { kind, name } => MakingView::Try { kind: kind@, name: name@ },
            Making::GoWithout => MakingView::GoWithout,
            Making::GiveUp => MakingView::GiveUp,
            Making::Nothing => MakingView::Nothing,
        }
    }
}

impl StepView {
    /// What is to be done for the element of the step, once so many tries have failed.
    pub open spec fn making(self, failures: nat) -> MakingView {
        match self {
            StepView::Make { kind, name } => if failures == 0 {
                MakingView::Try { kind, name }
            } else {
                MakingView::GiveUp
            },
            StepView::MakeEither { kind, name, other_kind, other_name } => if failures == 0 {
                MakingView::Try { kind, name }
            } else if failures == 1 {
                MakingView::Try { kind: other_kind, name: other_name }
            } else {
                MakingView::GiveUp
            },
            StepView::TryMake { kind, name } => if failures == 0 {
                MakingView::Try { kind, name }
            } else {
                MakingView::GoWithout
            },
            _ => MakingView::Nothing,
        }
    }
}

impl Step {
    /// What is to be done for the element of the step, once so many tries have failed.
    pub fn making(&self, failures: usize) -> (r: Making<'_>)
        ensures
            r@ == self@.making(failures as nat),
    {
        match self {
            Step::Make { kind, name } => if failures == 0 {
                Making::Try { kind, name: name.as_str() }
            } else {
                Making::GiveUp
            },
            Step::MakeEither { kind, name, other_kind, other_name } => if failures == 0 {
                Making::Try { kind, name: name.as_str() }
            } else if failures == 1 {
                Making::Try { kind: other_kind, name: other_name.as_str() }
            } else {
                Making::GiveUp
            },
            Step::TryMake { kind, name } => if failures == 0 {
                Making::Try { kind, name: name.as_str() }
            } else {
                Making::GoWithout
            },
            _ => Making::Nothing,
        }
    }
}

/// Making an element comes to its end, with two tries at the most. Each one makes an element
/// under a name of the step, and only an optional element is gone without.
pub proof fn law_making_ends(step: StepView, failures: nat)
    ensures
        step.is_make() <==> step.making(0) is Try,
        failures >= 2 ==> !(step.making(failures) is Try),
        step.making(failures) matches MakingView::Try { name, .. } ==> step.makes_named(name),
        step.making(failures) is GoWithout ==> step is TryMake,
        step.making(failures) is Nothing <==> !step.is_make(),
{
}

/// One line of a building plan.
#[derive(Debug)]
pub struct Line {
    pub when: When,
    pub step: Step,
}

/// The mathematical model of a `Line`.
pub struct LineView {
    pub when: When,
    pub step: StepView,
}

impl View for Line {
    type V = LineView;

    open spec fn view(&self) -> LineView {
        LineView { when: self.when, step: self.step@ }
    }
}

/// A line that is carried out in any case.
pub open spec fn always(step: StepView) -> LineView {
    LineView { when: When::Always, step }
}

/// How many elements a plan makes, or tries to make.
pub open spec fn makes(lines: Seq<LineView>) -> nat
    decreases lines.len(),
{
    if lines.len() == 0 {
        0
    } else {
        makes(lines.drop_last()) + if lines.last().step.is_make() {
            1nat
        } else {
            0nat
        }
    }
}

impl StepView {
    pub open spec fn is_make(self) -> bool {
        self is Make || self is MakeEither || self is TryMake
    }

    /// Does the step make an element under this name, or may it?
    pub open spec fn makes_named(self, wanted: Seq<char>) -> bool {
        match self {
            StepView::Make { name, .. } => name == wanted,
            StepView::MakeEither { name, other_name, .. } => name == wanted || other_name == wanted,
            StepView::TryMake { name, .. } => name == wanted,
            _ => false,
        }
    }

    /// Does the step deal with this element?
    pub open spec fn uses(self, element: usize) -> bool {
        match self {
            StepView::Make { .. } => false,
            StepView::MakeEither { .. } => false,
            StepView::TryMake { .. } => false,
            StepView::SetUpSource { element: e, .. } => e == element,
            StepView::Assign { element: e, .. } => e == element,
            StepView::Describe { element: e, .. } => e == element,
            StepView::Insert { elements } => elements.contains(element),
            StepView::Link { elements } => elements.contains(element),
            StepView::LinkFiltered { from, to, .. } => from == element || to == element,
            StepView::LinkLater { from, to, .. } => from == element || to == element,
            StepView::Expose { element: e, .. } => e == element,
        }
    }

    /// Does the step need its elements to be in the bin?
    pub open spec fn is_link(self) -> bool {
        self is Link || self is LinkFiltered || self is LinkLater || self is Expose
    }
}

/// Does the condition hold, given the elements that exist?
pub open spec fn holds(when: When, exists_by_now: spec_fn(usize) -> bool) -> bool {
    match when {
        When::Always => true,
        When::Made(element) => exists_by_now(element),
        When::Missing(element) => !exists_by_now(element),
    }
}

/// Is an element made under this name, or may one be?
pub open spec fn is_taken(lines: Seq<LineView>, name: Seq<char>) -> bool
    decreases lines.len(),
{
    if lines.len() == 0 {
        false
    } else {
        is_taken(lines.drop_last(), name) || lines.last().step.makes_named(name)
    }
}

/// May an element be missing, after the lines so far?
pub open spec fn may_miss(lines: Seq<LineView>, element: usize) -> bool
    decreases lines.len(),
{
    if lines.len() == 0 {
        false
    } else {
        may_miss(lines.drop_last(), element) || (lines.last().step is TryMake && makes(
            lines.drop_last(),
        ) == element)
    }
}

/// Is an element made under a name, in any case?
pub open spec fn made_as(lines: Seq<LineView>, element: usize, name: Seq<char>) -> bool
    decreases lines.len(),
{
    if lines.len() == 0 {
        false
    } else {
        made_as(lines.drop_last(), element, name) || (lines.last().step == (StepView::Make {
            kind: lines.last().step->Make_kind,
            name,
        }) && makes(lines.drop_last()) == element)
    }
}

/// Is an element in the bin whenever the condition holds, after the lines so far?
pub open spec fn inserted(lines: Seq<LineView>, element: usize, when: When) -> bool
    decreases lines.len(),
{
    if lines.len() == 0 {
        false
    } else {
        inserted(lines.drop_last(), element, when) || (lines.last().step is Insert
            && lines.last().step.uses(element) && (lines.last().when is Always
            || lines.last().when == when))
    }
}

/// Can a line be carried out behind others? It only deals with elements that exist by then, it
/// only links elements that are in the bin, and it makes no element under a name that is taken,
/// which the bin would refuse. Elements are made in any case.
pub open spec fn line_fits(before: Seq<LineView>, line: LineView) -> bool {
    &&& line.step.is_make() ==> line.when is Always
    &&& forall|name: Seq<char>| #[trigger]
        line.step.makes_named(name) ==> !is_taken(before, name)
    &&& line.when matches When::Made(e) ==> may_miss(before, e)
    &&& line.when matches When::Missing(e) ==> may_miss(before, e)
    &&& forall|e: usize| #[trigger]
        line.step.uses(e) ==> {
            &&& e < makes(before)
            &&& may_miss(before, e) ==> line.when == When::Made(e)
            &&& line.step.is_link() ==> inserted(before, e, line.when)
        }
}

/// A plan that can be carried out in an empty bin, from its first line to its last.
pub open spec fn is_sound(lines: Seq<LineView>) -> bool
    decreases lines.len(),
{
    lines.len() == 0 || (is_sound(lines.drop_last()) && line_fits(lines.drop_last(), lines.last()))
}

/// A building plan.
#[derive(Debug)]
pub struct Script {
    pub lines: Vec<Line>,
}

impl View for Script {
    type V = Seq<LineView>;

    open spec fn view(&self) -> Seq<LineView> {
        self.lines@.map_values(|line: Line| line@)
    }
}

impl Script {
    /// A plan without a line.
    pub fn new() -> (r: Script)
        ensures
            r@ == Seq::<LineView>::empty(),
    {
        let r = Script { lines: Vec::new() };
        assert(r@ =~= Seq::<LineView>::empty());
        r
    }

    /// Adds a line that is carried out under a condition.
    pub fn line(&mut self, when: When, step: Step)
        ensures
            final(self)@ == old(self)@.push(LineView { when, step: step@ }),
    {
        self.lines.push(Line { when, step });
        assert(self@ =~= old(self)@.push(LineView { when, step: step@ }));
    }

    /// Adds a line that is carried out in any case.
    pub fn step(&mut self, step: Step)
        ensures
            final(self)@ == old(self)@.push(always(step@)),
    {
        self.line(When::Always, step)
    }
}

impl When {
    /// Is a line to be carried out, given which of the elements so far exist?
    pub fn applies(&self, exists_by_now: &Vec<bool>) -> (r: bool)
        ensures
            r == holds(
                *self,
                |e: usize| e < exists_by_now@.len() && exists_by_now@[e as int],
            ),
    {
        match self {
            When::Always => true,
            When::Made(element) => *element < exists_by_now.len() && exists_by_now[*element],
            When::Missing(element) => !(*element < exists_by_now.len() && exists_by_now[*element]),
        }
    }
}

/// One more line makes one more element, or none.
pub broadcast proof fn lemma_makes_push(lines: Seq<LineView>, line: LineView)
    ensures
        #[trigger] makes(lines.push(line)) == makes(lines) + if line.step.is_make() {
            1nat
        } else {
            0nat
        },
{
    assert(lines.push(line).drop_last() =~= lines);
}

pub broadcast proof fn lemma_is_taken_push(lines: Seq<LineView>, line: LineView, name: Seq<char>)
    ensures
        #[trigger] is_taken(lines.push(line), name) == (is_taken(lines, name)
            || line.step.makes_named(name)),
{
    assert(lines.push(line).drop_last() =~= lines);
}

pub broadcast proof fn lemma_may_miss_push(lines: Seq<LineView>, line: LineView, element: usize)
    ensures
        #[trigger] may_miss(lines.push(line), element) == (may_miss(lines, element) || (
        line.step is TryMake && makes(lines) == element)),
{
    assert(lines.push(line).drop_last() =~= lines);
}

pub broadcast proof fn lemma_made_as_push(
    lines: Seq<LineView>,
    line: LineView,
    element: usize,
    name: Seq<char>,
)
    ensures
        #[trigger] made_as(lines.push(line), element, name) == (made_as(lines, element, name) || (
        line.step == (StepView::Make { kind: line.step->Make_kind, name }) && makes(lines)
            == element)),
{
    assert(lines.push(line).drop_last() =~= lines);
}

pub broadcast proof fn lemma_inserted_push(
    lines: Seq<LineView>,
    line: LineView,
    element: usize,
    when: When,
)
    ensures
        #[trigger] inserted(lines.push(line), element, when) == (inserted(lines, element, when) || (
        line.step is Insert && line.step.uses(element) && (line.when is Always || line.when
            == when))),
{
    assert(lines.push(line).drop_last() =~= lines);
}

pub broadcast proof fn lemma_is_sound_push(lines: Seq<LineView>, line: LineView)
    ensures
        #[trigger] is_sound(lines.push(line)) == (is_sound(lines) && line_fits(lines, line)),
{
    assert(lines.push(line).drop_last() =~= lines);
}

/// What a list of elements holds once one more is behind the others.
pub broadcast proof fn lemma_contains_push(elements: Seq<usize>, more: usize, element: usize)
    ensures
        #[trigger] elements.push(more).contains(element) == (elements.contains(element) || element
            == more),
{
    if elements.contains(element) {
        let i = elements.index_of(element);
        assert(elements.push(more)[i] == element);
    }
    assert(elements.push(more)[elements.len() as int] == more);
    if elements.push(more).contains(element) && element != more {
        let i = elements.push(more).index_of(element);
        assert(elements[i] == element);
    }
}

pub broadcast group group_script_steps {
    lemma_makes_push,
    lemma_is_taken_push,
    lemma_may_miss_push,
    lemma_made_as_push,
    lemma_inserted_push,
    lemma_is_sound_push,
    lemma_contains_push,
}

/// The model of a value shows its sort and what it holds.
pub proof fn law_the_model_of_a_value_is_faithful(
    flag: bool,
    number: i32,
    other: i32,
    uint: u32,
    ulong: u64,
    text: String,
)
    ensures
        Value::Flag(flag)@ == ValueView::Flag(flag),
        Value::Int(number)@ == ValueView::Int(number),
        Value::UInt(uint)@ == ValueView::UInt(uint),
        Value::ULong(ulong)@ == ValueView::ULong(ulong),
        Value::Text(text)@ == ValueView::Text(text@),
        Value::Parsed(text)@ == ValueView::Parsed(text@),
        Value::Fraction(number, other)@ == ValueView::Fraction(number, other),
{
}

/// The model of a description of media shows its type, and every field with its name and value, in
/// their order.
pub proof fn law_the_model_of_caps_is_faithful(caps: MediaCaps, i: int)
    ensures
        caps@.media_type == caps.media_type@,
        caps@.fields.len() == caps.fields@.len(),
        0 <= i < caps.fields@.len() ==> {
            &&& caps@.fields[i].0 == caps.fields@[i].name@
            &&& caps@.fields[i].1 == caps.fields@[i].value@
        },
{
}

/// The model of a step shows what the step does, with which elements, and with what.
pub proof fn law_the_model_of_a_step_is_faithful(step: Step)
    ensures
        step matches Step::Make { kind, name } ==> step@ == (StepView::Make {
            kind: kind@,
            name: name@,
        }),
        step matches Step::MakeEither { kind, name, other_kind, other_name } ==> step@ == (
        StepView::MakeEither {
            kind: kind@,
            name: name@,
            other_kind: other_kind@,
            other_name: other_name@,
        }),
        step matches Step::TryMake { kind, name } ==> step@ == (StepView::TryMake {
            kind: kind@,
            name: name@,
        }),
        step matches Step::SetUpSource { element, settings } ==> step@ == (StepView::SetUpSource {
            element,
            settings,
        }),
        step matches Step::Assign { element, property, value } ==> step@ == (StepView::Assign {
            element,
            property: property@,
            value: value@,
        }),
        step matches Step::Describe { element, caps } ==> step@ == (StepView::Describe {
            element,
            caps: caps@,
        }),
        step matches Step::Insert { elements } ==> step@ == (StepView::Insert {
            elements: elements@,
        }),
        step matches Step::Link { elements } ==> step@ == (StepView::Link { elements: elements@ }),
        step matches Step::LinkFiltered { from, to, caps } ==> step@ == (StepView::LinkFiltered {
            from,
            to,
            caps: caps@,
        }),
        step matches Step::LinkLater { from, to, pad } ==> step@ == (StepView::LinkLater {
            from,
            to,
            pad: pad@,
        }),
        step matches Step::Expose { element, pad } ==> step@ == (StepView::Expose {
            element,
            pad: pad@,
        }),
{
}

/// The model of a plan shows every line, in their order, with its condition and its step.
pub proof fn law_the_model_of_a_plan_is_faithful(script: Script, i: int)
    ensures
        script@.len() == script.lines@.len(),
        0 <= i < script.lines@.len() ==> {
            &&& script@[i].when == script.lines@[i].when
            &&& script@[i].step == script.lines@[i].step@
        },
{
}

/// The model of what is to be done for an element shows the kind and the name of a try.
pub proof fn law_the_model_of_making_is_faithful<'a>(making: Making<'a>)
    ensures
        making matches Making::Try { kind, name } ==> making@ == (MakingView::Try {
            kind: kind@,
            name: name@,
        }),
        making is GoWithout <==> making@ is GoWithout,
        making is GiveUp <==> making@ is GiveUp,
        making is Nothing <==> making@ is Nothing,
{
}

/// A condition looks at its own element and at nothing else: a line for an element that was made
/// and a line for one that is missing are never both carried out, and one of them always is. A
/// line without a condition is carried out whatever exists.
pub proof fn law_a_condition_looks_at_its_element(
    element: usize,
    exists_by_now: spec_fn(usize) -> bool,
    step: StepView,
)
    ensures
        holds(When::Made(element), exists_by_now) <==> exists_by_now(element),
        holds(When::Missing(element), exists_by_now) <==> !exists_by_now(element),
        holds(When::Always, exists_by_now),
        always(step).when is Always,
        always(step).step == step,
{
}

/// The first try is at the kind that the step names first, under the name that goes with it. Only
/// a step with two kinds has a second try, at the other kind under the other name, and only once
/// the first try has failed. After the last try an optional element is gone without, and any other
/// one is given up.
pub proof fn law_kinds_are_tried_in_their_order(
    kind: Seq<char>,
    name: Seq<char>,
    other_kind: Seq<char>,
    other_name: Seq<char>,
    failures: nat,
)
    ensures
        (StepView::Make { kind, name }).making(0) == (MakingView::Try { kind, name }),
        (StepView::TryMake { kind, name }).making(0) == (MakingView::Try { kind, name }),
        (StepView::MakeEither { kind, name, other_kind, other_name }).making(0) == (
        MakingView::Try { kind, name }),
        (StepView::MakeEither { kind, name, other_kind, other_name }).making(1) == (
        MakingView::Try { kind: other_kind, name: other_name }),
        failures >= 1 ==> (StepView::Make { kind, name }).making(failures) is GiveUp,
        failures >= 1 ==> (StepView::TryMake { kind, name }).making(failures) is GoWithout,
        failures >= 2 ==> (StepView::MakeEither { kind, name, other_kind, other_name }).making(
            failures,
        ) is GiveUp,
{
}

} // verus!
