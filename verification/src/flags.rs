//! The projection of a profile into build flags.

use vstd::prelude::*;
use vstd::string::StringExecFns;
use crate::assoc;
use crate::ordered::OrderedMap;
use crate::config::{EnabledView, PropsView};
use crate::profile::{Profile, ProfileView};
use crate::replicate::Replicate;
use crate::schema::{find_by_key, find_type, SpecView};
use crate::text;
use crate::value::{Value, ValueView};

verus! {

/// The flags of a profile, by name.
pub type FlagsView = Seq<(Seq<char>, ValueView)>;

/// `text` in lower snake case.
pub uninterp spec fn snake_cased(text: Seq<char>) -> Seq<char>;

/// `heck::SnakeCase::to_snake_case`: `text` in lower snake case.
#[verifier::external_body]
fn snake_case(text: &str) -> (snake: String)
    ensures
        snake@ == snake_cased(text@),
{
    heck::SnakeCase::to_snake_case(text)
}

/// `text` as a quoted string literal, with what needs it escaped.
pub uninterp spec fn debug_quoted(text: Seq<char>) -> Seq<char>;

/// The `Debug` formatting of `str`: `text` between double quotes, with
/// what needs it escaped.
#[verifier::external_body]
fn debug_quote(text: &str) -> (quoted: String)
    ensures
        quoted@ == debug_quoted(text@),
{
    format!("{:?}", text)
}

/// The character that writes the hexadecimal digit `d` in lower case.
pub open spec fn hex_char(d: int) -> char {
    if d < 10 {
        text::digit_char(d)
    } else if d == 10 {
        'a'
    } else if d == 11 {
        'b'
    } else if d == 12 {
        'c'
    } else if d == 13 {
        'd'
    } else if d == 14 {
        'e'
    } else {
        'f'
    }
}

/// The hexadecimal digit of `bits` at place `at`, counted from the most
/// significant of its 32 digits.
pub open spec fn hex_digit(bits: u128, at: int) -> int {
    (bits as int / vstd::arithmetic::power::pow(16, (31 - at) as nat)) % 16
}

/// The number of hyphens before place `at` of a hyphenated UUID.
pub open spec fn hyphens_before(at: int) -> int {
    if at < 8 {
        0
    } else if at < 13 {
        1
    } else if at < 18 {
        2
    } else if at < 23 {
        3
    } else {
        4
    }
}

/// The hyphenated text of a UUID: its 32 hexadecimal digits in lower case,
/// in groups of 8, 4, 4, 4 and 12 with hyphens between them.
pub open spec fn hyphenated(bits: u128) -> Seq<char> {
    Seq::new(
        36,
        |at: int|
            if at == 8 || at == 13 || at == 18 || at == 23 {
                '-'
            } else {
                hex_char(hex_digit(bits, at - hyphens_before(at)))
            },
    )
}

/// `uuid::Uuid::from_u128`, then `to_hyphenated` and its `Display`: the
/// hyphenated lower-case text of the UUID with the given bits.
#[verifier::external_body]
pub(crate) fn hyphenate(bits: u128) -> (text: String)
    ensures
        text@ == hyphenated(bits),
{
    uuid::Uuid::from_u128(bits).to_hyphenated().to_string()
}

/// Whether the category of the outside name `category` is single. A name
/// that the schema does not know stands for no single category.
pub open spec fn is_single(spec: SpecView, category: Seq<char>) -> bool {
    match find_by_key(spec.types, category) {
        Some(found) => found.1.is_single,
        None => false,
    }
}

/// `flags` with one flag for each property of `props`, in order: its name
/// is the snake case of category, field and property joined by
/// underscores, its value that of the property.
pub open spec fn prop_flags(
    flags: FlagsView,
    category: Seq<char>,
    field: Seq<char>,
    props: PropsView,
) -> FlagsView
    decreases props.len(),
{
    if props.len() == 0 {
        flags
    } else {
        assoc::put(
            prop_flags(flags, category, field, props.drop_last()),
            snake_cased(category + "_"@ + field + "_"@ + props.last().0),
            props.last().1,
        )
    }
}

/// `flags` with the flags of one enabled field. In a single category the
/// field is the text under the category's name in snake case. In any other
/// it is `true` under the snake case of category and field joined by an
/// underscore. The flags of its properties follow.
pub open spec fn field_flags(
    flags: FlagsView,
    single: bool,
    category: Seq<char>,
    field: Seq<char>,
    props: PropsView,
) -> FlagsView {
    let chosen = if single {
        assoc::put(flags, snake_cased(category), ValueView::String(field))
    } else {
        assoc::put(flags, snake_cased(category + "_"@ + field), ValueView::Bool(true))
    };
    prop_flags(chosen, category, field, props)
}

/// `flags` with the flags of the enabled fields of one category, in order.
pub open spec fn category_flags(
    flags: FlagsView,
    single: bool,
    category: Seq<char>,
    enabled: EnabledView,
) -> FlagsView
    decreases enabled.len(),
{
    if enabled.len() == 0 {
        flags
    } else {
        field_flags(
            category_flags(flags, single, category, enabled.drop_last()),
            single,
            category,
            enabled.last().0,
            enabled.last().1,
        )
    }
}

/// `flags` with the flags of every category of `config`, in order.
pub open spec fn config_flags(
    flags: FlagsView,
    spec: SpecView,
    config: crate::config::ConfigView,
) -> FlagsView
    decreases config.len(),
{
    if config.len() == 0 {
        flags
    } else {
        category_flags(
            config_flags(flags, spec, config.drop_last()),
            is_single(spec, config.last().0),
            config.last().0,
            config.last().1,
        )
    }
}

/// The flags of a profile. A flag set twice keeps its first place and has
/// its last value.
pub open spec fn flags_map(profile: ProfileView) -> FlagsView {
    config_flags(Seq::empty(), profile.spec, profile.config)
}

/// A profile that enables one field without properties has one flag: in a
/// single category the field's name under the category's name, in any
/// other `true` under the names of category and field.
pub proof fn law_one_field_one_flag(profile: ProfileView, category: Seq<char>, field: Seq<char>)
    requires
        profile.config == seq![(category, seq![(field, Seq::<(Seq<char>, ValueView)>::empty())])],
    ensures
        is_single(profile.spec, category) ==> flags_map(profile) == seq![
            (snake_cased(category), ValueView::String(field)),
        ],
        !is_single(profile.spec, category) ==> flags_map(profile) == seq![
            (snake_cased(category + "_"@ + field), ValueView::Bool(true)),
        ],
{
    let none = Seq::<(Seq<char>, ValueView)>::empty();
    let enabled = seq![(field, none)];
    let config = profile.config;
    let single = is_single(profile.spec, category);
    assert(config.drop_last() =~= Seq::empty());
    assert(config.last() == (category, enabled));
    assert(enabled.drop_last() =~= Seq::empty());
    assert(enabled.last() == (field, none));
    assert(config_flags(Seq::empty(), profile.spec, config.drop_last()) == none);
    assert(category_flags(none, single, category, enabled.drop_last()) == none);
    assert(category_flags(none, single, category, enabled) == field_flags(
        none,
        single,
        category,
        field,
        none,
    ));
    if single {
        assert(assoc::put(none, snake_cased(category), ValueView::String(field)) =~= seq![
            (snake_cased(category), ValueView::String(field)),
        ]);
    } else {
        assert(assoc::put(none, snake_cased(category + "_"@ + field), ValueView::Bool(true))
            =~= seq![(snake_cased(category + "_"@ + field), ValueView::Bool(true))]);
    }
}

/// Adds the flags of the properties of one enabled field.
fn add_prop_flags(flags: &mut OrderedMap<Value>, category: &str, field: &str, props: &OrderedMap<Value>)
    ensures
        final(flags).deep_view() == prop_flags(
            old(flags).deep_view(),
            category@,
            field@,
            props.deep_view(),
        ),
{
    let ghost start = flags.deep_view();
    let stem = text::chain(text::chain(text::chain(category, "_").as_str(), field).as_str(), "_");
    let mut i: usize = 0;
    assert(props.deep_view().take(0).len() == 0);
    while i < props.len()
        invariant
            i <= props.deep_view().len(),
            stem@ == category@ + "_"@ + field@ + "_"@,
            flags.deep_view() == prop_flags(
                start,
                category@,
                field@,
                props.deep_view().take(i as int),
            ),
        decreases props.deep_view().len() - i,
    {
        proof {
            assert(props.deep_view().take(i + 1).drop_last() =~= props.deep_view().take(i as int));
        }
        match props.get_index(i) {
            Some((name, value)) => {
                assert(props.deep_view().take(i + 1).last() == (name@, value.deep_view()));
                let key = snake_case(text::chain(stem.as_str(), name.as_str()).as_str());
                flags.insert(key, value.replicate());
            },
            None => {},
        }
        i += 1;
    }
    assert(props.deep_view().take(i as int) =~= props.deep_view());
}

/// Adds the flags of the enabled fields of one category.
fn add_category_flags(
    flags: &mut OrderedMap<Value>,
    single: bool,
    category: &str,
    enabled: &OrderedMap<OrderedMap<Value>>,
)
    ensures
        final(flags).deep_view() == category_flags(
            old(flags).deep_view(),
            single,
            category@,
            enabled.deep_view(),
        ),
{
    let ghost start = flags.deep_view();
    let mut i: usize = 0;
    assert(enabled.deep_view().take(0).len() == 0);
    while i < enabled.len()
        invariant
            i <= enabled.deep_view().len(),
            flags.deep_view() == category_flags(
                start,
                single,
                category@,
                enabled.deep_view().take(i as int),
            ),
        decreases enabled.deep_view().len() - i,
    {
        proof {
            assert(enabled.deep_view().take(i + 1).drop_last() =~= enabled.deep_view().take(
                i as int,
            ));
        }
        match enabled.get_index(i) {
            Some((field, props)) => {
                assert(enabled.deep_view().take(i + 1).last() == (field@, props.deep_view()));
                if single {
                    flags.insert(snake_case(category), Value::String(field.clone()));
                } else {
                    let name = text::chain(text::chain(category, "_").as_str(), field.as_str());
                    flags.insert(snake_case(name.as_str()), Value::Bool(true));
                }
                add_prop_flags(flags, category, field.as_str(), props);
            },
            None => {},
        }
        i += 1;
    }
    assert(enabled.deep_view().take(i as int) =~= enabled.deep_view());
}

impl Profile {
    /// The flags of the profile, by name, in the order in which the
    /// profile enables its fields.
    pub fn cfg_flags_map(&self) -> (flags: OrderedMap<Value>)
        ensures
            flags.deep_view() == flags_map(self.deep_view()),
    {
        let spec = self.spec();
        let config = self.config();
        let mut flags: OrderedMap<Value> = OrderedMap::new();
        let mut i: usize = 0;
        assert(config.deep_view().take(0).len() == 0);
        while i < config.len()
            invariant
                i <= config.deep_view().len(),
                spec.deep_view() == self.deep_view().spec,
                config.deep_view() == self.deep_view().config,
                flags.deep_view() == config_flags(
                    Seq::empty(),
                    spec.deep_view(),
                    config.deep_view().take(i as int),
                ),
            decreases config.deep_view().len() - i,
        {
            proof {
                assert(config.deep_view().take(i + 1).drop_last() =~= config.deep_view().take(
                    i as int,
                ));
            }
            match config.get_index(i) {
                Some((category, enabled)) => {
                    assert(config.deep_view().take(i + 1).last() == (
                        category@,
                        enabled.deep_view(),
                    ));
                    let single = match find_type(&spec.types, category.as_str()) {
                        Some((_, type_spec)) => type_spec.is_single,
                        None => false,
                    };
                    add_category_flags(&mut flags, single, category.as_str(), enabled);
                },
                None => {},
            }
            i += 1;
        }
        assert(config.deep_view().take(i as int) =~= config.deep_view());
        flags
    }
}

/// What follows the name of a flag in its token: nothing for a truth
/// value, else an equals sign and the value, a text as a quoted string
/// literal, a number in decimal, a UUID hyphenated between double quotes.
pub open spec fn rendered_value(value: ValueView) -> Seq<char> {
    match value {
        ValueView::String(x) => "="@ + debug_quoted(x),
        ValueView::Bool(_) => Seq::empty(),
        ValueView::U8(x) => "="@ + text::decimal(x as int),
        ValueView::U16(x) => "="@ + text::decimal(x as int),
        ValueView::U32(x) => "="@ + text::decimal(x as int),
        ValueView::U64(x) => "="@ + text::decimal(x as int),
        ValueView::I8(x) => "="@ + text::decimal(x as int),
        ValueView::I16(x) => "="@ + text::decimal(x as int),
        ValueView::I32(x) => "="@ + text::decimal(x as int),
        ValueView::I64(x) => "="@ + text::decimal(x as int),
        ValueView::Uuid(x) => "="@ + "\""@ + hyphenated(x) + "\""@,
    }
}

/// The token of a flag: its name and what follows it, between single
/// quotes.
pub open spec fn rendered(name: Seq<char>, value: ValueView) -> Seq<char> {
    "'"@ + name + rendered_value(value) + "'"@
}

/// The tokens of `flags`, in order: for each flag but those that are
/// `false`, the marker `--cfg` and the token of the flag.
pub open spec fn rustc_tokens(flags: FlagsView) -> Seq<Seq<char>>
    decreases flags.len(),
{
    if flags.len() == 0 {
        Seq::empty()
    } else {
        let before = rustc_tokens(flags.drop_last());
        if flags.last().1 == ValueView::Bool(false) {
            before
        } else {
            before.push("--cfg"@).push(rendered(flags.last().0, flags.last().1))
        }
    }
}

/// A flag that is `false` gives no token: the tokens are those of the
/// flags without it.
pub proof fn law_false_flag_unrendered(flags: FlagsView, at: int)
    requires
        0 <= at < flags.len(),
        flags[at].1 == ValueView::Bool(false),
    ensures
        rustc_tokens(flags) == rustc_tokens(flags.remove(at)),
    decreases flags.len(),
{
    if at == flags.len() - 1 {
        assert(flags.remove(at) =~= flags.drop_last());
    } else {
        law_false_flag_unrendered(flags.drop_last(), at);
        assert(flags.remove(at).drop_last() =~= flags.drop_last().remove(at));
        assert(flags.remove(at).last() == flags.last());
    }
}

/// Every flag that is not `false` gives two tokens, and no other token is
/// given.
pub proof fn law_token_count(flags: FlagsView)
    ensures
        rustc_tokens(flags).len() == 2 * flags.filter(
            |flag: (Seq<char>, ValueView)| flag.1 != ValueView::Bool(false),
        ).len(),
    decreases flags.len(),
{
    reveal(Seq::filter);
    if flags.len() > 0 {
        law_token_count(flags.drop_last());
    }
}

/// What follows the name of a flag in its token.
pub fn render_value(value: &Value) -> (text: String)
    ensures
        text@ == rendered_value(value.deep_view()),
{
    match value {
        Value::String(x) => text::chain("=", debug_quote(x.as_str()).as_str()),
        Value::Bool(_) => String::new(),
        Value::U8(x) => text::chain("=", text::unsigned_decimal(*x as u64).as_str()),
        Value::U16(x) => text::chain("=", text::unsigned_decimal(*x as u64).as_str()),
        Value::U32(x) => text::chain("=", text::unsigned_decimal(*x as u64).as_str()),
        Value::U64(x) => text::chain("=", text::unsigned_decimal(*x).as_str()),
        Value::I8(x) => text::chain("=", text::signed_decimal(*x as i64).as_str()),
        Value::I16(x) => text::chain("=", text::signed_decimal(*x as i64).as_str()),
        Value::I32(x) => text::chain("=", text::signed_decimal(*x as i64).as_str()),
        Value::I64(x) => text::chain("=", text::signed_decimal(*x).as_str()),
        Value::Uuid(x) => {
            let mut text = String::from_str("=");
            text.append("\"");
            text.append(hyphenate(*x).as_str());
            text.append("\"");
            text
        },
    }
}

/// The token of a flag.
pub fn render(name: &str, value: &Value) -> (token: String)
    ensures
        token@ == rendered(name@, value.deep_view()),
{
    let mut token = String::from_str("'");
    token.append(name);
    token.append(render_value(value).as_str());
    token.append("'");
    token
}

/// The tokens of `flags`, in order.
pub fn render_flags(flags: &OrderedMap<Value>) -> (tokens: Vec<String>)
    ensures
        tokens.deep_view() == rustc_tokens(flags.deep_view()),
{
    let mut tokens: Vec<String> = Vec::new();
    let mut i: usize = 0;
    assert(flags.deep_view().take(0).len() == 0);
    assert(tokens.deep_view() =~= Seq::empty());
    while i < flags.len()
        invariant
            i <= flags.deep_view().len(),
            tokens.deep_view() == rustc_tokens(flags.deep_view().take(i as int)),
        decreases flags.deep_view().len() - i,
    {
        proof {
            assert(flags.deep_view().take(i + 1).drop_last() =~= flags.deep_view().take(i as int));
        }
        let ghost before = tokens.deep_view();
        match flags.get_index(i) {
            Some((name, value)) => {
                assert(flags.deep_view().take(i + 1).last() == (name@, value.deep_view()));
                let skipped = match value {
                    Value::Bool(on) => !*on,
                    _ => false,
                };
                if !skipped {
                    let marker = String::from_str("--cfg");
                    let token = render(name.as_str(), value);
                    tokens.push(marker);
                    tokens.push(token);
                    assert(tokens.deep_view() =~= before.push("--cfg"@).push(token@));
                }
            },
            None => {},
        }
        i += 1;
    }
    assert(flags.deep_view().take(i as int) =~= flags.deep_view());
    tokens
}

/// The argument that names the features: nothing where there are none,
/// else `--features` and the features, each between double quotes, joined
/// by commas.
pub open spec fn features_arg(features: Seq<Seq<char>>) -> Seq<Seq<char>> {
    if features.len() == 0 {
        Seq::empty()
    } else {
        seq!["--features"@, "\""@ + text::joined(features, "\",\""@) + "\""@]
    }
}

/// The arguments that select a binary target. A name with a slash selects
/// the package before the first slash and in it the binary up to the next
/// slash; any other name the binary of that name.
pub open spec fn bin_target(bin: Seq<char>) -> Seq<Seq<char>> {
    let parts = text::pieces(bin, "/"@);
    if parts.len() > 1 {
        seq!["-p"@, parts[0], "--bin"@, parts[1]]
    } else {
        seq!["--bin"@, bin]
    }
}

/// The arguments that select a library target.
pub open spec fn lib_target(lib: Seq<char>) -> Seq<Seq<char>> {
    seq!["--lib"@, lib]
}

/// The argument groups of a profile: one for each binary target, then one
/// for each library target, each followed by the features.
pub open spec fn cargo_groups(profile: ProfileView) -> Seq<Seq<Seq<char>>> {
    Seq::new(
        profile.bins.len(),
        |i: int| bin_target(profile.bins[i]) + features_arg(profile.features),
    ) + Seq::new(
        profile.libs.len(),
        |i: int| lib_target(profile.libs[i]) + features_arg(profile.features),
    )
}

/// The argument that names the features.
pub fn features_arg_of(features: &Vec<String>) -> (args: Vec<String>)
    ensures
        args.deep_view() == features_arg(features.deep_view()),
{
    let mut args: Vec<String> = Vec::new();
    if features.len() > 0 {
        let mut list = String::from_str("\"");
        list.append(text::join(features, "\",\"").as_str());
        list.append("\"");
        args.push(String::from_str("--features"));
        args.push(list);
    }
    assert(args.deep_view() =~= features_arg(features.deep_view()));
    args
}

/// The arguments that select a binary target.
pub fn bin_target_of(bin: &str) -> (args: Vec<String>)
    ensures
        args.deep_view() == bin_target(bin@),
{
    let parts = text::split(bin, "/");
    let mut args: Vec<String> = Vec::new();
    if parts.len() > 1 {
        args.push(String::from_str("-p"));
        args.push(parts[0].clone());
        args.push(String::from_str("--bin"));
        args.push(parts[1].clone());
    } else {
        args.push(String::from_str("--bin"));
        args.push(String::from_str(bin));
    }
    assert(args.deep_view() =~= bin_target(bin@));
    args
}

/// `first` followed by copies of the items of `second`.
fn followed_by(first: Vec<String>, second: &Vec<String>) -> (all: Vec<String>)
    ensures
        all.deep_view() == first.deep_view() + second.deep_view(),
{
    let ghost start = first.deep_view();
    let mut all = first;
    let mut i: usize = 0;
    assert(all.deep_view() =~= start + second.deep_view().take(0));
    while i < second.len()
        invariant
            i <= second.len(),
            all.deep_view() == start + second.deep_view().take(i as int),
        decreases second.len() - i,
    {
        let ghost before = all.deep_view();
        all.push(second[i].clone());
        assert(all.deep_view() =~= before.push(second[i as int]@));
        assert(before.push(second[i as int]@) =~= start + second.deep_view().take(i + 1));
        i += 1;
    }
    assert(second.deep_view().take(i as int) =~= second.deep_view());
    all
}

impl Profile {
    /// The flags of the profile as arguments for the compiler.
    pub fn rustc_cfg_flags(&self) -> (tokens: Vec<String>)
        ensures
            tokens.deep_view() == rustc_tokens(flags_map(self.deep_view())),
    {
        let flags = self.cfg_flags_map();
        render_flags(&flags)
    }

    /// The targets and features of the profile as groups of arguments for
    /// the build tool.
    pub fn cargo_flags(&self) -> (groups: Vec<Vec<String>>)
        ensures
            groups.deep_view() == cargo_groups(self.deep_view()),
    {
        let bins = self.bins();
        let libs = self.libs();
        let features = features_arg_of(self.features());
        let mut groups: Vec<Vec<String>> = Vec::new();
        let mut i: usize = 0;
        while i < bins.len()
            invariant
                i <= bins.len(),
                groups.len() == i,
                features.deep_view() == features_arg(self.deep_view().features),
                bins.deep_view() == self.deep_view().bins,
                forall|j: int|
                    0 <= j < i ==> (#[trigger] groups[j]).deep_view() == bin_target(bins[j]@)
                        + features.deep_view(),
            decreases bins.len() - i,
        {
            groups.push(followed_by(bin_target_of(bins[i].as_str()), &features));
            i += 1;
        }
        let mut k: usize = 0;
        while k < libs.len()
            invariant
                k <= libs.len(),
                groups.len() == bins.len() + k,
                features.deep_view() == features_arg(self.deep_view().features),
                bins.deep_view() == self.deep_view().bins,
                libs.deep_view() == self.deep_view().libs,
                forall|j: int|
                    0 <= j < bins.len() ==> (#[trigger] groups[j]).deep_view() == bin_target(
                        bins[j]@,
                    ) + features.deep_view(),
                forall|j: int|
                    0 <= j < k ==> (#[trigger] groups[bins.len() + j]).deep_view() == lib_target(
                        libs[j]@,
                    ) + features.deep_view(),
            decreases libs.len() - k,
        {
            let mut target: Vec<String> = Vec::new();
            target.push(String::from_str("--lib"));
            target.push(libs[k].clone());
            assert(target.deep_view() =~= lib_target(libs[k as int]@));
            groups.push(followed_by(target, &features));
            k += 1;
        }
        proof {
            let model = cargo_groups(self.deep_view());
            assert(groups.deep_view().len() == model.len());
            assert forall|j: int| 0 <= j < model.len() implies groups.deep_view()[j]
                == model[j] by {
                if j < bins.len() {
                    assert(groups[j].deep_view() == bin_target(bins[j]@) + features.deep_view());
                    assert(bins.deep_view()[j] == bins[j]@);
                } else {
                    let l = j - bins.len();
                    assert(groups[bins.len() + l].deep_view() == lib_target(libs[l]@)
                        + features.deep_view());
                    assert(libs.deep_view()[l] == libs[l]@);
                }
            }
            assert(groups.deep_view() =~= model);
        }
        groups
    }
}

} // verus!
