//! The summary of a profile in words.

use vstd::prelude::*;
use vstd::string::StringExecFns;
use crate::flags::{cargo_groups, flags_map, hyphenate, hyphenated, rustc_tokens};
use crate::ordered::OrderedMap;
use crate::config::{Config, ConfigView, EnabledView, PropsView};
use crate::profile::{Profile, ProfileView};
use crate::text;
use crate::value::{Value, ValueView};

verus! {

/// The text of a value: a text as it is, a truth value as `true` or
/// `false`, a number in decimal, a UUID hyphenated.
pub open spec fn shown(value: ValueView) -> Seq<char> {
    match value {
        ValueView::String(x) => x,
        ValueView::Bool(x) => if x {
            "true"@
        } else {
            "false"@
        },
        ValueView::U8(x) => text::decimal(x as int),
        ValueView::U16(x) => text::decimal(x as int),
        ValueView::U32(x) => text::decimal(x as int),
        ValueView::U64(x) => text::decimal(x as int),
        ValueView::I8(x) => text::decimal(x as int),
        ValueView::I16(x) => text::decimal(x as int),
        ValueView::I32(x) => text::decimal(x as int),
        ValueView::I64(x) => text::decimal(x as int),
        ValueView::Uuid(x) => hyphenated(x),
    }
}

/// One line for each item: two spaces, the item, a line end.
pub open spec fn indented(items: Seq<Seq<char>>) -> Seq<char>
    decreases items.len(),
{
    if items.len() == 0 {
        Seq::empty()
    } else {
        indented(items.drop_last()) + "  "@ + items.last() + "\n"@
    }
}

/// The items under a title, or nothing where there are no items.
pub open spec fn listing(title: Seq<char>, items: Seq<Seq<char>>) -> Seq<char> {
    if items.len() == 0 {
        Seq::empty()
    } else {
        title + indented(items)
    }
}

/// One line for each property of an enabled field: its path and its value.
pub open spec fn props_lines(category: Seq<char>, field: Seq<char>, props: PropsView) -> Seq<char>
    decreases props.len(),
{
    if props.len() == 0 {
        Seq::empty()
    } else {
        props_lines(category, field, props.drop_last()) + "  "@ + category + "."@ + field + "."@
            + props.last().0 + " = "@ + shown(props.last().1) + "\n"@
    }
}

/// For each enabled field of a category a line that says so, and the lines
/// of its properties.
pub open spec fn fields_lines(category: Seq<char>, enabled: EnabledView) -> Seq<char>
    decreases enabled.len(),
{
    if enabled.len() == 0 {
        Seq::empty()
    } else {
        fields_lines(category, enabled.drop_last()) + category + "."@ + enabled.last().0
            + ": enabled\n"@ + props_lines(category, enabled.last().0, enabled.last().1)
    }
}

/// The lines of the enabled fields of every category.
pub open spec fn config_lines(config: ConfigView) -> Seq<char>
    decreases config.len(),
{
    if config.len() == 0 {
        Seq::empty()
    } else {
        config_lines(config.drop_last()) + fields_lines(config.last().0, config.last().1)
    }
}

/// One line for each group of arguments: two spaces and the arguments with
/// spaces between them.
pub open spec fn groups_lines(groups: Seq<Seq<Seq<char>>>) -> Seq<char>
    decreases groups.len(),
{
    if groups.len() == 0 {
        Seq::empty()
    } else {
        groups_lines(groups.drop_last()) + "  "@ + text::joined(groups.last(), " "@) + "\n"@
    }
}

/// The summary of a profile: its description; its binaries, libraries and
/// features, each under its title and followed by an empty line where
/// there are any; the fields it enables; the flags for the compiler; and
/// the arguments for the build tool.
pub open spec fn summary_text(profile: ProfileView) -> Seq<char> {
    let targets = listing("Binaries:\n"@, profile.bins) + listing("Libraries:\n"@, profile.libs)
        + listing("Features:\n"@, profile.features);
    let gap = if targets.len() > 0 {
        "\n"@
    } else {
        Seq::empty()
    };
    profile.description + "\n\n"@ + targets + gap + config_lines(profile.config) + "\n"@
        + "Rust compiler flags:\n"@ + "  "@ + text::joined(
        rustc_tokens(flags_map(profile)),
        " "@,
    ) + "\n\n"@ + "Cargo flags:\n"@ + groups_lines(cargo_groups(profile))
}

/// The text of a value.
pub fn show(value: &Value) -> (text: String)
    ensures
        text@ == shown(value.deep_view()),
{
    match value {
        Value::String(x) => x.clone(),
        Value::Bool(x) => if *x {
            String::from_str("true")
        } else {
            String::from_str("false")
        },
        Value::U8(x) => text::unsigned_decimal(*x as u64),
        Value::U16(x) => text::unsigned_decimal(*x as u64),
        Value::U32(x) => text::unsigned_decimal(*x as u64),
        Value::U64(x) => text::unsigned_decimal(*x),
        Value::I8(x) => text::signed_decimal(*x as i64),
        Value::I16(x) => text::signed_decimal(*x as i64),
        Value::I32(x) => text::signed_decimal(*x as i64),
        Value::I64(x) => text::signed_decimal(*x),
        Value::Uuid(x) => hyphenate(*x),
    }
}

/// The items under a title, or nothing where there are no items.
fn list(title: &str, items: &Vec<String>) -> (text: String)
    ensures
        text@ == listing(title@, items.deep_view()),
{
    let mut lines = String::new();
    let mut i: usize = 0;
    assert(items.deep_view().take(0) =~= Seq::empty());
    while i < items.len()
        invariant
            i <= items.len(),
            lines@ == indented(items.deep_view().take(i as int)),
        decreases items.len() - i,
    {
        proof {
            assert(items.deep_view().take(i + 1).drop_last() =~= items.deep_view().take(i as int));
            assert(items.deep_view().take(i + 1).last() == items[i as int]@);
        }
        lines.append("  ");
        lines.append(items[i].as_str());
        lines.append("\n");
        i += 1;
    }
    assert(items.deep_view().take(i as int) =~= items.deep_view());
    if items.len() == 0 {
        lines
    } else {
        text::chain(title, lines.as_str())
    }
}

/// The lines of the properties of an enabled field.
fn props_text(category: &str, field: &str, props: &OrderedMap<Value>) -> (text: String)
    ensures
        text@ == props_lines(category@, field@, props.deep_view()),
{
    let mut lines = String::new();
    let mut i: usize = 0;
    assert(props.deep_view().take(0) =~= Seq::empty());
    while i < props.len()
        invariant
            i <= props.deep_view().len(),
            lines@ == props_lines(category@, field@, props.deep_view().take(i as int)),
        decreases props.deep_view().len() - i,
    {
        proof {
            assert(props.deep_view().take(i + 1).drop_last() =~= props.deep_view().take(i as int));
        }
        match props.get_index(i) {
            Some((name, value)) => {
                assert(props.deep_view().take(i + 1).last() == (name@, value.deep_view()));
                lines.append("  ");
                lines.append(category);
                lines.append(".");
                lines.append(field);
                lines.append(".");
                lines.append(name.as_str());
                lines.append(" = ");
                lines.append(show(value).as_str());
                lines.append("\n");
            },
            None => {},
        }
        i += 1;
    }
    assert(props.deep_view().take(i as int) =~= props.deep_view());
    lines
}

/// The lines of the enabled fields of a category.
fn fields_text(category: &str, enabled: &OrderedMap<OrderedMap<Value>>) -> (text: String)
    ensures
        text@ == fields_lines(category@, enabled.deep_view()),
{
    let mut lines = String::new();
    let mut i: usize = 0;
    assert(enabled.deep_view().take(0) =~= Seq::empty());
    while i < enabled.len()
        invariant
            i <= enabled.deep_view().len(),
            lines@ == fields_lines(category@, enabled.deep_view().take(i as int)),
        decreases enabled.deep_view().len() - i,
    {
        proof {
            assert(enabled.deep_view().take(i + 1).drop_last() =~= enabled.deep_view().take(
                i as int,
            ));
        }
        match enabled.get_index(i) {
            Some((field, props)) => {
                assert(enabled.deep_view().take(i + 1).last() == (field@, props.deep_view()));
                lines.append(category);
                lines.append(".");
                lines.append(field.as_str());
                lines.append(": enabled\n");
                lines.append(props_text(category, field.as_str(), props).as_str());
            },
            None => {},
        }
        i += 1;
    }
    assert(enabled.deep_view().take(i as int) =~= enabled.deep_view());
    lines
}

/// The lines of the enabled fields of every category.
fn config_text(config: &Config) -> (text: String)
    ensures
        text@ == config_lines(config.deep_view()),
{
    let mut lines = String::new();
    let mut i: usize = 0;
    assert(config.deep_view().take(0) =~= Seq::empty());
    while i < config.len()
        invariant
            i <= config.deep_view().len(),
            lines@ == config_lines(config.deep_view().take(i as int)),
        decreases config.deep_view().len() - i,
    {
        proof {
            assert(config.deep_view().take(i + 1).drop_last() =~= config.deep_view().take(
                i as int,
            ));
        }
        match config.get_index(i) {
            Some((category, enabled)) => {
                assert(config.deep_view().take(i + 1).last() == (category@, enabled.deep_view()));
                lines.append(fields_text(category.as_str(), enabled).as_str());
            },
            None => {},
        }
        i += 1;
    }
    assert(config.deep_view().take(i as int) =~= config.deep_view());
    lines
}

/// One line for each group of arguments.
fn groups_text(groups: &Vec<Vec<String>>) -> (text: String)
    ensures
        text@ == groups_lines(groups.deep_view()),
{
    let mut lines = String::new();
    let mut i: usize = 0;
    assert(groups.deep_view().take(0) =~= Seq::empty());
    while i < groups.len()
        invariant
            i <= groups.len(),
            lines@ == groups_lines(groups.deep_view().take(i as int)),
        decreases groups.len() - i,
    {
        proof {
            assert(groups.deep_view().take(i + 1).drop_last() =~= groups.deep_view().take(
                i as int,
            ));
            assert(groups.deep_view().take(i + 1).last() == groups[i as int].deep_view());
        }
        lines.append("  ");
        lines.append(text::join(&groups[i], " ").as_str());
        lines.append("\n");
        i += 1;
    }
    assert(groups.deep_view().take(i as int) =~= groups.deep_view());
    lines
}

impl Profile {
    /// The summary of the profile in words.
    pub fn summary(&self) -> (text: String)
        ensures
            text@ == summary_text(self.deep_view()),
    {
        let mut targets = list("Binaries:\n", self.bins());
        targets.append(list("Libraries:\n", self.libs()).as_str());
        targets.append(list("Features:\n", self.features()).as_str());
        let mut text = String::from_str(self.description());
        text.append("\n\n");
        text.append(targets.as_str());
        if !targets.as_str().is_empty() {
            text.append("\n");
        } else {
            assert(text@ + Seq::<char>::empty() =~= text@);
        }
        text.append(config_text(self.config()).as_str());
        text.append("\n");
        text.append("Rust compiler flags:\n");
        text.append("  ");
        text.append(text::join(&self.rustc_cfg_flags(), " ").as_str());
        text.append("\n\n");
        text.append("Cargo flags:\n");
        text.append(groups_text(&self.cargo_flags()).as_str());
        text
    }
}

} // verus!
