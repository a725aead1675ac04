//! Launch arguments of a manifest, plain or guarded by rules.

use vstd::prelude::*;
use crate::model::{clone_strings, lemma_view_seq_eq, view_seq};
use crate::rule::{evaluate, evaluation, FeatureMatcher, Platform, PlatformView, Rule, RuleAction, RuleView};

verus! {

/// The phase that an argument list belongs to.
#[derive(Debug, Clone, Copy, PartialEq, Eq, Hash, Structural)]
pub enum ArgumentType {
    Game,
    Jvm,
}

/// The text of an argument: one string or several.
#[derive(Debug)]
pub enum ArgumentValue {
    String(String),
    List(Vec<String>),
}

/// The mathematical value of an [`ArgumentValue`].
pub enum ArgumentValueView {
    String(Seq<char>),
    List(Seq<Seq<char>>),
}

impl View for ArgumentValue {
    type V = ArgumentValueView;

    open spec fn view(&self) -> ArgumentValueView {
        match *self {
            ArgumentValue::String(s) => ArgumentValueView::String(s@),
            ArgumentValue::List(list) => ArgumentValueView::List(view_seq(list@)),
        }
    }
}

impl Clone for ArgumentValue {
    fn clone(&self) -> (out: Self)
        ensures
            out@ == self@,
    {
        match self {
            ArgumentValue::String(s) => ArgumentValue::String(s.clone()),
            ArgumentValue::List(list) => ArgumentValue::List(clone_strings(list)),
        }
    }
}

/// The strings of an argument value, in order.
pub open spec fn value_strings(value: ArgumentValueView) -> Seq<Seq<char>> {
    match value {
        ArgumentValueView::String(s) => seq![s],
        ArgumentValueView::List(list) => list,
    }
}

impl ArgumentValue {
    /// The strings of the value, in order.
    pub fn value(&self) -> (strings: Vec<&String>)
        ensures
            strings@.map_values(|s: &String| s@) == value_strings(self@),
    {
        let mut strings: Vec<&String> = Vec::new();
        match self {
            ArgumentValue::String(s) => {
                strings.push(s);
            },
            ArgumentValue::List(list) => {
                let mut i: usize = 0;
                while i < list.len()
                    invariant
                        i <= list.len(),
                        strings@.map_values(|s: &String| s@) == view_seq(list@).take(i as int),
                    decreases list.len() - i,
                {
                    let ghost before = strings@;
                    strings.push(&list[i]);
                    assert(strings@.map_values(|s: &String| s@) =~= before.map_values(
                        |s: &String| s@,
                    ).push(list@[i as int]@));
                    assert(view_seq(list@).take(i + 1) =~= view_seq(list@).take(i as int).push(
                        list@[i as int]@,
                    ));
                    i += 1;
                }
                assert(view_seq(list@).take(list@.len() as int) =~= view_seq(list@));
            },
        }
        assert(strings@.map_values(|s: &String| s@) =~= value_strings(self@));
        strings
    }
}

/// An argument: a value that always applies, or one that its rules decide
/// on.
#[derive(Debug)]
pub enum Argument {
    Value(ArgumentValue),
    Object { rules: Vec<Rule>, value: ArgumentValue },
}

/// The mathematical value of an [`Argument`].
pub enum ArgumentView {
    Value(ArgumentValueView),
    Object { rules: Seq<RuleView>, value: ArgumentValueView },
}

impl View for Argument {
    type V = ArgumentView;

    open spec fn view(&self) -> ArgumentView {
        match *self {
            Argument::Value(value) => ArgumentView::Value(value@),
            Argument::Object { rules, value } => ArgumentView::Object {
                rules: view_seq(rules@),
                value: value@,
            },
        }
    }
}

impl Clone for Argument {
    fn clone(&self) -> (out: Self)
        ensures
            out@ == self@,
    {
        match self {
            Argument::Value(value) => Argument::Value(value.clone()),
            Argument::Object { rules, value } => {
                let copied = rules.clone();
                proof {
                    lemma_view_seq_eq(copied@, rules@);
                }
                Argument::Object { rules: copied, value: value.clone() }
            },
        }
    }
}

/// The value of an argument.
pub open spec fn argument_value(argument: ArgumentView) -> ArgumentValueView {
    match argument {
        ArgumentView::Value(value) => value,
        ArgumentView::Object { value, .. } => value,
    }
}

/// Whether an argument applies: a plain value always does; a guarded one
/// does where its rules are empty or decide `Allow`.
pub open spec fn argument_applies<M: FeatureMatcher>(
    argument: ArgumentView,
    matcher: &M,
    platform: PlatformView,
) -> bool {
    match argument {
        ArgumentView::Value(_) => true,
        ArgumentView::Object { rules, .. } => evaluation(rules, matcher, platform)
            == RuleAction::Allow,
    }
}

impl Argument {
    /// The strings of the argument where it applies, and `None` where it
    /// does not.
    pub fn apply<M: FeatureMatcher>(&self, matcher: &M, platform: &Platform) -> (strings: Option<
        Vec<&String>,
    >)
        ensures
            strings is Some <==> argument_applies(self@, matcher, platform@),
            strings is Some ==> strings->0@.map_values(|s: &String| s@) == value_strings(
                argument_value(self@),
            ),
    {
        if self.applies_to_current_environment(matcher, platform) {
            Some(self.value())
        } else {
            None
        }
    }

    /// The strings of the argument, in order.
    pub fn value(&self) -> (strings: Vec<&String>)
        ensures
            strings@.map_values(|s: &String| s@) == value_strings(argument_value(self@)),
    {
        match self {
            Argument::Value(value) => value.value(),
            Argument::Object { value, .. } => value.value(),
        }
    }

    /// Whether the argument applies.
    pub fn applies_to_current_environment<M: FeatureMatcher>(
        &self,
        matcher: &M,
        platform: &Platform,
    ) -> (applies: bool)
        ensures
            applies == argument_applies(self@, matcher, platform@),
    {
        match self {
            Argument::Value(_) => true,
            Argument::Object { rules, .. } => {
                evaluate(rules, matcher, platform) == RuleAction::Allow
            },
        }
    }
}

} // verus!
