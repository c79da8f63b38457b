//! The configuration of a profile: the enabled fields of each category,
//! with the values of their properties.

use vstd::prelude::*;
use vstd::string::StringExecFns;
use crate::assoc;
use crate::document::{Node, NodeView};
use crate::ordered::OrderedMap;
use crate::profile::{Error, ErrorView};
use crate::replicate::Replicate;
use crate::schema::{result_model, FieldSpec, FieldSpecView, PropSpecView, SpecView};
use crate::text;
use crate::value::{value_or_zero, zero_value, Value, ValueView};

verus! {

/// The values of the properties of one enabled field, by name.
pub type PropsView = Seq<(Seq<char>, ValueView)>;

/// The enabled fields of one category, by name.
pub type EnabledView = Seq<(Seq<char>, PropsView)>;

/// The enabled fields of every category, by the category's outside name.
pub type ConfigView = Seq<(Seq<char>, EnabledView)>;

/// The enabled fields of every category, by the category's outside name.
pub type Config = OrderedMap<OrderedMap<OrderedMap<Value>>>;

/// The field `field` of the category with the section name `index`.
pub open spec fn field_spec(spec: SpecView, index: Seq<char>, field: Seq<char>) -> Option<
    FieldSpecView,
> {
    match assoc::get(spec.fields, index) {
        Some(fields) => assoc::get(fields, field),
        None => None,
    }
}

/// `config` with the field `field` of the category `category` enabled with
/// the properties `props`. A field that is enabled already keeps its place,
/// and keeps its properties unless `replace` is set.
pub open spec fn enable(
    config: ConfigView,
    category: Seq<char>,
    field: Seq<char>,
    props: PropsView,
    replace: bool,
) -> ConfigView {
    let enabled = match assoc::get(config, category) {
        Some(enabled) => enabled,
        None => Seq::empty(),
    };
    if !replace && assoc::has_key(enabled, field) {
        assoc::put(config, category, enabled)
    } else {
        assoc::put(config, category, assoc::put(enabled, field, props))
    }
}

/// Every property of `props` is one of the field `field`.
pub open spec fn props_known(props: PropsView, field: FieldSpecView) -> bool {
    forall|p: int| 0 <= p < props.len() ==> assoc::has_key(field.properties, (#[trigger] props[p]).0)
}

/// The category with the section name `index` has the outside name
/// `category` and a field `field` that has every property of `props`.
pub open spec fn fits(
    spec: SpecView,
    index: Seq<char>,
    category: Seq<char>,
    field: Seq<char>,
    props: PropsView,
) -> bool {
    &&& assoc::get(spec.types, index) matches Some(type_spec) && type_spec.key == category
    &&& field_spec(spec, index, field) matches Some(field_spec) && props_known(props, field_spec)
}

/// The schema has a category of the outside name `category` with a field
/// `field` that has every property of `props`.
pub open spec fn known(spec: SpecView, category: Seq<char>, field: Seq<char>, props: PropsView)
    -> bool {
    exists|index: Seq<char>| fits(spec, index, category, field, props)
}

/// Every enabled field of `config`, with its properties, is known to the
/// schema.
pub open spec fn config_known(spec: SpecView, config: ConfigView) -> bool {
    forall|i: int, j: int|
        0 <= i < config.len() && 0 <= j < config[i].1.len() ==> known(
            spec,
            config[i].0,
            (#[trigger] config[i].1[j]).0,
            config[i].1[j].1,
        )
}

/// Enabling a field that the schema knows keeps a configuration known to
/// the schema.
pub proof fn lemma_enable_known(
    spec: SpecView,
    config: ConfigView,
    category: Seq<char>,
    field: Seq<char>,
    props: PropsView,
    replace: bool,
)
    requires
        config_known(spec, config),
        known(spec, category, field, props),
    ensures
        config_known(spec, enable(config, category, field, props, replace)),
{
    let after = enable(config, category, field, props, replace);
    let enabled = match assoc::get(config, category) {
        Some(enabled) => enabled,
        None => Seq::empty(),
    };
    let enabled_after = if !replace && assoc::has_key(enabled, field) {
        enabled
    } else {
        assoc::put(enabled, field, props)
    };
    assoc::lemma_index_of(config, category);
    assoc::lemma_put_entries(config, category, enabled_after);
    assoc::lemma_put_entries(enabled, field, props);
    assert forall|i: int, j: int| 0 <= i < after.len() && 0 <= j < after[i].1.len() implies known(
        spec,
        after[i].0,
        (#[trigger] after[i].1[j]).0,
        after[i].1[j].1,
    ) by {
        if after[i] == (category, enabled_after) {
            if enabled_after[j] == (field, props) {
            } else {
                assert(0 <= j < enabled.len() && enabled_after[j] == enabled[j]);
                let at = assoc::index_of(config, category)->0;
                assert(config[at].1 == enabled);
                assert(known(spec, config[at].0, config[at].1[j].0, config[at].1[j].1));
            }
        } else {
            assert(after[i] == config[i]);
            assert(known(spec, config[i].0, config[i].1[j].0, config[i].1[j].1));
        }
    }
}

/// Enables the field `field` of the category `category` with the
/// properties `props`.
pub fn enable_field(
    config: &mut Config,
    category: &str,
    field: &str,
    props: OrderedMap<Value>,
    replace: bool,
)
    ensures
        final(config).deep_view() == enable(
            old(config).deep_view(),
            category@,
            field@,
            props.deep_view(),
            replace,
        ),
{
    let ghost before = config.deep_view();
    let ghost empty = Seq::<(Seq<char>, PropsView)>::empty();
    let mut enabled = match config.insert(String::from_str(category), OrderedMap::new()) {
        Some(enabled) => enabled,
        None => OrderedMap::new(),
    };
    if replace || !enabled.contains_key(field) {
        enabled.insert(String::from_str(field), props);
    }
    proof {
        assoc::lemma_put_twice(before, category@, empty, enabled.deep_view());
    }
    config.insert(String::from_str(category), enabled);
}

/// One step of reading the properties that a profile sets on the field
/// under `path`: the entry must name a property of `properties`, and its
/// value goes under that name.
pub open spec fn value_step(path: Seq<char>, properties: Seq<(Seq<char>, PropSpecView)>)
    -> spec_fn(PropsView, (Seq<char>, NodeView)) -> Result<PropsView, ErrorView> {
    |props: PropsView, entry: (Seq<char>, NodeView)|
        match assoc::get(properties, entry.0) {
            None => Err(ErrorView::UnknownProperty(path + "."@ + entry.0)),
            Some(prop) => Ok(assoc::put(props, entry.0, value_or_zero(prop.ty, entry.1))),
        }
}

/// `props` with the default of each property of `properties` that has one
/// and that `props` does not set, in the order of `properties`.
pub open spec fn with_defaults(props: PropsView, properties: Seq<(Seq<char>, PropSpecView)>)
    -> PropsView
    decreases properties.len(),
{
    if properties.len() == 0 {
        props
    } else {
        let before = with_defaults(props, properties.drop_last());
        match properties.last().1.default {
            Some(default) => if assoc::has_key(before, properties.last().0) {
                before
            } else {
                assoc::put(before, properties.last().0, default)
            },
            None => before,
        }
    }
}

/// The values of the properties of a field that a profile's table `raw`
/// sets under `path`, with the defaults of those it leaves out.
pub open spec fn parse_props(path: Seq<char>, field: FieldSpecView, raw: Seq<(Seq<char>, NodeView)>)
    -> Result<PropsView, ErrorView> {
    match assoc::try_fold(raw, Seq::empty(), value_step(path, field.properties)) {
        Err(error) => Err(error),
        Ok(explicit) => Ok(with_defaults(explicit, field.properties)),
    }
}

/// Setting properties of a field and filling in defaults gives only
/// properties of that field.
pub proof fn lemma_with_defaults_known(props: PropsView, field: FieldSpecView, upto: int)
    requires
        props_known(props, field),
        0 <= upto <= field.properties.len(),
    ensures
        props_known(with_defaults(props, field.properties.take(upto)), field),
    decreases upto,
{
    let properties = field.properties.take(upto);
    if upto > 0 {
        assert(properties.drop_last() =~= field.properties.take(upto - 1));
        lemma_with_defaults_known(props, field, upto - 1);
        let before = with_defaults(props, properties.drop_last());
        match properties.last().1.default {
            Some(default) => {
                if !assoc::has_key(before, properties.last().0) {
                    let after = assoc::put(before, properties.last().0, default);
                    assoc::lemma_put_entries(before, properties.last().0, default);
                    assert(properties.last() == field.properties[upto - 1]);
                    assoc::lemma_index_of(field.properties, properties.last().0);
                    assert forall|p: int| 0 <= p < after.len() implies assoc::has_key(
                        field.properties,
                        (#[trigger] after[p]).0,
                    ) by {
                        if after[p] == (properties.last().0, default) {
                        } else {
                            assert(after[p] == before[p]);
                        }
                    }
                }
            },
            None => {},
        }
    }
}

/// A value that does not stand for one of its property's kind is read as
/// the zero value of that kind, and reading goes on: the properties that a
/// profile sets on a field are read whatever their values, where each of
/// them is a property of the field.
pub proof fn law_value_falls_back(
    path: Seq<char>,
    field: FieldSpecView,
    raw: Seq<(Seq<char>, NodeView)>,
)
    requires
        forall|i: int| 0 <= i < raw.len() ==> assoc::has_key(field.properties, (#[trigger] raw[i]).0),
    ensures
        parse_props(path, field, raw) is Ok,
        forall|props: PropsView, i: int|
            0 <= i < raw.len() && crate::value::coerce(
                assoc::get(field.properties, raw[i].0)->0.ty,
                raw[i].1,
            ) is None ==> #[trigger] value_step(path, field.properties)(props, raw[i]) == Ok::<
                PropsView,
                ErrorView,
            >(
                assoc::put(
                    props,
                    raw[i].0,
                    zero_value(assoc::get(field.properties, raw[i].0)->0.ty),
                ),
            ),
{
    let step = value_step(path, field.properties);
    assert forall|props: PropsView, i: int| 0 <= i < raw.len() implies #[trigger] step(
        props,
        raw[i],
    ) is Ok by {
        assert(assoc::has_key(field.properties, raw[i].0));
    }
    assoc::lemma_try_fold_succeeds(raw, Seq::empty(), step);
    assert forall|props: PropsView, i: int|
        0 <= i < raw.len() && crate::value::coerce(
            assoc::get(field.properties, raw[i].0)->0.ty,
            raw[i].1,
        ) is None implies #[trigger] value_step(path, field.properties)(props, raw[i]) == Ok::<
        PropsView,
        ErrorView,
    >(
        assoc::put(props, raw[i].0, zero_value(assoc::get(field.properties, raw[i].0)->0.ty)),
    ) by {
        assert(assoc::has_key(field.properties, raw[i].0));
    }
}

/// Filling in defaults leaves what a profile sets as it is, and gives a
/// property that the profile leaves out the default that the schema gives
/// it.
pub proof fn law_defaults_fill_gaps(
    props: PropsView,
    properties: Seq<(Seq<char>, PropSpecView)>,
    name: Seq<char>,
)
    ensures
        assoc::has_key(props, name) ==> assoc::get(with_defaults(props, properties), name)
            == assoc::get(props, name),
        !assoc::has_key(props, name) ==> assoc::get(with_defaults(props, properties), name)
            == first_default(properties, name),
        assoc::distinct(properties) && !assoc::has_key(props, name) && assoc::has_key(
            properties,
            name,
        ) ==> assoc::get(with_defaults(props, properties), name) == assoc::get(
            properties,
            name,
        )->0.default,
    decreases properties.len(),
{
    if properties.len() > 0 {
        let front = properties.drop_last();
        let last = properties.last();
        let before = with_defaults(props, front);
        law_defaults_fill_gaps(props, front, name);
        if last.1.default is Some && !assoc::has_key(before, last.0) {
            assoc::lemma_put(before, last.0, last.1.default->0);
        }
        assoc::lemma_index_of(properties, name);
        assoc::lemma_index_of(front, name);
        if assoc::distinct(properties) {
            assert forall|i: int, j: int|
                0 <= i < front.len() && 0 <= j < front.len() && i != j implies front[i].0
                != front[j].0 by {
                assert(front[i] == properties[i] && front[j] == properties[j]);
            }
            if let Some(at) = assoc::index_of(properties, name) {
                if at < front.len() {
                    assert(front[at] == properties[at]);
                    assoc::lemma_index_of_first(front, name, at);
                    assert(last.0 != name) by {
                        assert(properties[properties.len() - 1].0 != properties[at].0);
                    }
                } else {
                    assert(first_default(front, name) is None) by {
                        lemma_first_default_none(front, name);
                    }
                }
            }
        }
    }
}

/// What a profile sets last under a name is what the first entries of its
/// table give that name, once they reach past that entry.
proof fn lemma_explicit(
    path: Seq<char>,
    properties: Seq<(Seq<char>, PropSpecView)>,
    raw: Seq<(Seq<char>, NodeView)>,
    at: int,
    upto: int,
)
    requires
        0 <= at < upto <= raw.len(),
        forall|later: int| at < later < upto ==> (#[trigger] raw[later]).0 != raw[at].0,
        assoc::try_fold(raw.take(upto), Seq::empty(), value_step(path, properties)) is Ok,
    ensures
        assoc::get(properties, raw[at].0) matches Some(prop) && assoc::get(
            assoc::try_fold(raw.take(upto), Seq::empty(), value_step(path, properties))->Ok_0,
            raw[at].0,
        ) == Some(value_or_zero(prop.ty, raw[at].1)),
    decreases upto - at,
{
    let step = value_step(path, properties);
    let none = Seq::<(Seq<char>, ValueView)>::empty();
    assoc::lemma_try_fold_step(raw, none, step, upto - 1);
    let before = assoc::try_fold(raw.take(upto - 1), none, step)->Ok_0;
    if upto == at + 1 {
        let prop = assoc::get(properties, raw[at].0)->0;
        assoc::lemma_put(before, raw[at].0, value_or_zero(prop.ty, raw[at].1));
    } else {
        lemma_explicit(path, properties, raw, at, upto - 1);
        let last = raw[upto - 1];
        let prop = assoc::get(properties, last.0)->0;
        assoc::lemma_put(before, last.0, value_or_zero(prop.ty, last.1));
    }
}

/// What a profile sets for a property stands in the configuration, whether
/// or not the schema gives the property a default: the value under a name
/// is the one that the last entry of that name in the profile's table
/// stands for.
pub proof fn law_explicit_overrides(
    path: Seq<char>,
    field: FieldSpecView,
    raw: Seq<(Seq<char>, NodeView)>,
    at: int,
)
    requires
        0 <= at < raw.len(),
        forall|later: int| at < later < raw.len() ==> (#[trigger] raw[later]).0 != raw[at].0,
        parse_props(path, field, raw) is Ok,
    ensures
        assoc::get(field.properties, raw[at].0) matches Some(prop) && assoc::get(
            parse_props(path, field, raw)->Ok_0,
            raw[at].0,
        ) == Some(value_or_zero(prop.ty, raw[at].1)),
{
    assert(raw.take(raw.len() as int) =~= raw);
    lemma_explicit(path, field.properties, raw, at, raw.len() as int);
    let explicit = assoc::try_fold(
        raw,
        Seq::empty(),
        value_step(path, field.properties),
    )->Ok_0;
    law_defaults_fill_gaps(explicit, field.properties, raw[at].0);
}

/// Every value of `props` is of the kind of the property of `field` that
/// it stands under.
pub open spec fn props_typed(props: PropsView, field: FieldSpecView) -> bool {
    forall|p: int|
        0 <= p < props.len() ==> value_fits((#[trigger] props[p]).0, props[p].1, field)
}

/// The field has a property `name`, and `value` is of its kind.
pub open spec fn value_fits(name: Seq<char>, value: ValueView, field: FieldSpecView) -> bool {
    match assoc::get(field.properties, name) {
        Some(prop) => value.ty() == prop.ty,
        None => false,
    }
}

/// Filling in the defaults of well-formed properties keeps every value of
/// the kind of its property.
proof fn lemma_defaults_typed(props: PropsView, field: FieldSpecView, upto: int)
    requires
        assoc::distinct(field.properties),
        crate::schema::field_wf()(field),
        props_typed(props, field),
        0 <= upto <= field.properties.len(),
    ensures
        props_typed(with_defaults(props, field.properties.take(upto)), field),
    decreases upto,
{
    let properties = field.properties.take(upto);
    if upto > 0 {
        assert(properties.drop_last() =~= field.properties.take(upto - 1));
        lemma_defaults_typed(props, field, upto - 1);
        let before = with_defaults(props, properties.drop_last());
        let last = properties.last();
        assert(last == field.properties[upto - 1]);
        if last.1.default is Some && !assoc::has_key(before, last.0) {
            let default = last.1.default->0;
            let after = assoc::put(before, last.0, default);
            assoc::lemma_put_entries(before, last.0, default);
            assoc::lemma_index_of(field.properties, last.0);
            assert(assoc::index_of(field.properties, last.0) == Some(upto - 1)) by {
                let found = assoc::index_of(field.properties, last.0)->0;
                if found != upto - 1 {
                    assert(field.properties[found].0 != field.properties[upto - 1].0);
                }
            }
            assert(last.1.wf());
            assert forall|p: int| 0 <= p < after.len() implies value_fits(
                (#[trigger] after[p]).0,
                after[p].1,
                field,
            ) by {
                if after[p] == (last.0, default) {
                } else {
                    assert(after[p] == before[p]);
                }
            }
        }
    }
}

/// Against a well-formed field, every value that is read for a property,
/// set or filled in, is of the kind of that property.
pub proof fn law_values_typed(
    path: Seq<char>,
    field: FieldSpecView,
    raw: Seq<(Seq<char>, NodeView)>,
)
    requires
        assoc::distinct(field.properties),
        crate::schema::field_wf()(field),
    ensures
        parse_props(path, field, raw) matches Ok(props) ==> props_typed(props, field),
{
    let step = value_step(path, field.properties);
    let kept = |props: PropsView| props_typed(props, field);
    assert forall|state: PropsView, at: int|
        0 <= at < raw.len() && kept(state) && (#[trigger] step(state, raw[at])) is Ok implies kept(
        step(state, raw[at])->Ok_0,
    ) by {
        let prop = assoc::get(field.properties, raw[at].0)->0;
        let value = value_or_zero(prop.ty, raw[at].1);
        let after = assoc::put(state, raw[at].0, value);
        assoc::lemma_put_entries(state, raw[at].0, value);
        assert forall|p: int| 0 <= p < after.len() implies value_fits(
            (#[trigger] after[p]).0,
            after[p].1,
            field,
        ) by {
            if after[p] == (raw[at].0, value) {
            } else {
                assert(after[p] == state[p]);
            }
        }
    }
    assoc::lemma_try_fold_keeps(raw, Seq::empty(), step, kept);
    if let Ok(explicit) = assoc::try_fold(raw, Seq::empty(), step) {
        assert(field.properties.take(field.properties.len() as int) =~= field.properties);
        lemma_defaults_typed(explicit, field, field.properties.len() as int);
    }
}

/// The first default that `properties` gives under `name`, in order.
pub open spec fn first_default(properties: Seq<(Seq<char>, PropSpecView)>, name: Seq<char>)
    -> Option<ValueView>
    decreases properties.len(),
{
    if properties.len() == 0 {
        None
    } else {
        match first_default(properties.drop_last(), name) {
            Some(default) => Some(default),
            None => if properties.last().0 == name {
                properties.last().1.default
            } else {
                None
            },
        }
    }
}

/// Properties that have none of the name give no default under it.
pub proof fn lemma_first_default_none(
    properties: Seq<(Seq<char>, PropSpecView)>,
    name: Seq<char>,
)
    requires
        !assoc::has_key(properties, name),
    ensures
        first_default(properties, name) is None,
    decreases properties.len(),
{
    if properties.len() > 0 {
        assoc::lemma_index_of(properties, name);
        assoc::lemma_index_of(properties.drop_last(), name);
        assert(properties.last() == properties[properties.len() - 1]);
        assoc::lemma_index_of_none(properties.drop_last(), name);
        lemma_first_default_none(properties.drop_last(), name);
    }
}

/// Reads the values that the table `raw` sets for the properties of
/// `field`, and fills in the defaults of the properties it leaves out.
pub fn parse_props_of(path: &str, field: &FieldSpec, raw: &Vec<(String, Node)>) -> (result: Result<
    OrderedMap<Value>,
    Error,
>)
    ensures
        result_model(result) == parse_props(path@, field.deep_view(), raw.deep_view()),
        result matches Ok(props) ==> props_known(props.deep_view(), field.deep_view()),
{
    let ghost properties = field.properties.deep_view();
    let ghost step = value_step(path@, properties);
    let ghost empty = Seq::<(Seq<char>, ValueView)>::empty();
    let mut props: OrderedMap<Value> = OrderedMap::new();
    let mut i: usize = 0;
    proof {
        assert(raw.deep_view().take(0).len() == 0);
    }
    while i < raw.len()
        invariant
            i <= raw.len(),
            properties == field.deep_view().properties,
            step == value_step(path@, properties),
            empty == Seq::<(Seq<char>, ValueView)>::empty(),
            assoc::try_fold(raw.deep_view().take(i as int), empty, step) == Ok::<
                PropsView,
                ErrorView,
            >(props.deep_view()),
            props_known(props.deep_view(), field.deep_view()),
        decreases raw.len() - i,
    {
        proof {
            assoc::lemma_try_fold_step(raw.deep_view(), empty, step, i as int);
            assoc::lemma_try_fold_fails(raw.deep_view(), empty, step, i + 1);
            assert(raw.deep_view()[i as int] == (raw[i as int].0@, raw[i as int].1.deep_view()));
        }
        let ghost before = props.deep_view();
        match field.properties.0.get(raw[i].0.as_str()) {
            None => {
                return Err(Error::UnknownProperty(text::dotted(path, raw[i].0.as_str())));
            },
            Some(prop) => {
                let value = Value::new_or_default(prop.ty, &raw[i].1);
                proof {
                    assoc::lemma_put_entries(before, raw[i as int].0@, value.deep_view());
                }
                props.insert(raw[i].0.clone(), value);
                proof {
                    let after = props.deep_view();
                    assert forall|p: int| 0 <= p < after.len() implies assoc::has_key(
                        properties,
                        (#[trigger] after[p]).0,
                    ) by {
                        if after[p] == (raw[i as int].0@, value.deep_view()) {
                        } else {
                            assert(after[p] == before[p]);
                        }
                    }
                }
            },
        }
        i += 1;
    }
    assert(raw.deep_view().take(i as int) =~= raw.deep_view());
    let ghost explicit = props.deep_view();
    let mut k: usize = 0;
    assert(properties.take(0).len() == 0);
    while k < field.properties.0.len()
        invariant
            k <= properties.len(),
            properties == field.deep_view().properties,
            properties == field.properties.0.deep_view(),
            props_known(explicit, field.deep_view()),
            props.deep_view() == with_defaults(explicit, properties.take(k as int)),
        decreases properties.len() - k,
    {
        proof {
            assert(properties.take(k + 1).drop_last() =~= properties.take(k as int));
            lemma_with_defaults_known(explicit, field.deep_view(), k + 1);
        }
        match field.properties.0.get_index(k) {
            Some((name, prop)) => {
                assert(properties.take(k + 1).last() == (name@, prop.deep_view()));
                match &prop.default {
                    Some(default) => {
                        if !props.contains_key(name.as_str()) {
                            props.insert(name.clone(), default.replicate());
                        }
                    },
                    None => {},
                }
            },
            None => {},
        }
        k += 1;
    }
    proof {
        assert(properties.take(k as int) =~= properties);
        lemma_with_defaults_known(explicit, field.deep_view(), k as int);
    }
    Ok(props)
}

} // verus!
