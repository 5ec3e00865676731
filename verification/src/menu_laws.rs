//! In which order a menu stands.

use crate::menu::{
    a_menu_is_in_order, comes_after, lemma_menu_order, lemma_own_fits, lemma_placed_holds_positions,
    lemma_providers, menu_of, menu_order, options_of, placed, provider_menu, providers_of,
    ModelView,
};
use crate::words::{lowercase, text_before_in_order};
use vstd::prelude::*;

verus! {

/// Whether a name may stand above another one: it is the current name, or the other one is
/// not and does not come first in lower case.
pub open spec fn may_stand_above(upper: Seq<char>, lower: Seq<char>, current: Seq<char>) -> bool {
    upper == current || lower != current && !text_before_in_order(lowercase(lower), lowercase(upper))
}

/// Whether two names are equal in a menu: both are the current one or neither is, and they
/// read the same in lower case.
pub open spec fn stand_alike(left: Seq<char>, right: Seq<char>, current: Seq<char>) -> bool {
    (left == current <==> right == current) && lowercase(left) == lowercase(right)
}

spec fn is_stable(names: Seq<Seq<char>>, current: Seq<char>, positions: Seq<usize>) -> bool {
    forall|i: int, j: int|
        #![trigger positions[i], positions[j]]
        0 <= i < j < positions.len() ==> positions[i] < positions[j] || comes_after(
            names[positions[j] as int],
            names[positions[i] as int],
            current,
        )
}

proof fn lemma_placed_stable(
    names: Seq<Seq<char>>,
    current: Seq<char>,
    positions: Seq<usize>,
    position: usize,
)
    requires
        is_stable(names, current, positions),
        forall|i: int| 0 <= i < positions.len() ==> #[trigger] positions[i] < position,
    ensures
        is_stable(names, current, placed(names, current, positions, position)),
    decreases positions.len(),
{
    let result = placed(names, current, positions, position);
    if positions.len() > 0 && comes_after(
        names[positions.last() as int],
        names[position as int],
        current,
    ) {
        let last = positions.last();
        let shorter = positions.drop_last();
        lemma_placed_stable(names, current, shorter, position);
        lemma_placed_holds_positions(names, current, shorter, position);
        let inner = placed(names, current, shorter, position);
        assert forall|i: int, j: int|
            #![trigger result[i], result[j]]
            0 <= i < j < result.len() implies result[i] < result[j] || comes_after(
            names[result[j] as int],
            names[result[i] as int],
            current,
        ) by {
            assert(result[i] == inner[i]);
            if j < inner.len() {
                assert(result[j] == inner[j]);
            } else {
                assert(result[j] == last);
                if shorter.contains(inner[i]) {
                    let k = choose|k: int| 0 <= k < shorter.len() && shorter[k] == inner[i];
                    assert(positions[k] == inner[i]);
                    assert(positions[positions.len() - 1] == last);
                }
            }
        }
    } else {
        assert forall|i: int, j: int|
            #![trigger result[i], result[j]]
            0 <= i < j < result.len() implies result[i] < result[j] || comes_after(
            names[result[j] as int],
            names[result[i] as int],
            current,
        ) by {
            assert(result[i] == positions[i]);
            if j < positions.len() {
                assert(result[j] == positions[j]);
            }
        }
    }
}

proof fn lemma_stable(names: Seq<Seq<char>>, current: Seq<char>, count: int)
    requires
        0 <= count <= names.len(),
        names.len() <= usize::MAX,
    ensures
        is_stable(names, current, menu_order(names, current, count)),
    decreases count,
{
    if count > 0 {
        lemma_stable(names, current, count - 1);
        lemma_menu_order(names, current, count - 1);
        lemma_placed_stable(
            names,
            current,
            menu_order(names, current, count - 1),
            (count - 1) as usize,
        );
    }
}

/// The current name stands first and the others by their names in lower case; names that are
/// alike in a menu stay in the order in which they were given.
pub proof fn names_stand_in_order(
    names: Seq<Seq<char>>,
    current: Seq<char>,
    upper: int,
    lower: int,
)
    requires
        0 <= upper < lower < names.len(),
        names.len() <= usize::MAX,
    ensures
        ({
            let order = menu_order(names, current, names.len() as int);
            let first = names[order[upper] as int];
            let second = names[order[lower] as int];
            &&& may_stand_above(first, second, current)
            &&& stand_alike(first, second, current) ==> order[upper] < order[lower]
        }),
{
    let count = names.len() as int;
    a_menu_is_in_order(names, current, count);
    lemma_menu_order(names, current, count);
    lemma_stable(names, current, count);
    let order = menu_order(names, current, count);
    let first = names[order[upper] as int];
    let second = names[order[lower] as int];
    assert(!comes_after(first, second, current));
    assert(order[upper] < order[lower] || comes_after(second, first, current));
    crate::words::lemma_bytes_order(
        vstd::utf8::encode_utf8(lowercase(first)),
        vstd::utf8::encode_utf8(lowercase(second)),
    );
}

/// The providers of a menu are those of its options, each in one group; the current one
/// stands first, and the others by name.
pub proof fn providers_stand_in_order(
    options: Seq<ModelView>,
    current_provider: Seq<char>,
    current_model: Seq<char>,
    upper: int,
    lower: int,
)
    requires
        options.len() <= usize::MAX,
        0 <= upper < lower < menu_of(options, current_provider, current_model).len(),
    ensures
        ({
            let menu = menu_of(options, current_provider, current_model);
            &&& menu[upper].0 != menu[lower].0
            &&& may_stand_above(menu[upper].0, menu[lower].0, current_provider)
        }),
{
    let providers = providers_of(options);
    lemma_providers(options);
    let count = providers.len() as int;
    lemma_menu_order(providers, current_provider, count);
    names_stand_in_order(providers, current_provider, upper, lower);
    lemma_distinct(providers, current_provider, upper, lower);
}

proof fn lemma_distinct(names: Seq<Seq<char>>, current: Seq<char>, first: int, second: int)
    requires
        0 <= first < second < names.len(),
        names.len() <= usize::MAX,
        names.no_duplicates(),
    ensures
        ({
            let order = menu_order(names, current, names.len() as int);
            names[order[first] as int] != names[order[second] as int]
        }),
{
    let count = names.len() as int;
    lemma_menu_order(names, current, count);
    lemma_stable(names, current, count);
    let order = menu_order(names, current, count);
    if order[first] >= order[second] {
        assert(comes_after(names[order[second] as int], names[order[first] as int], current));
        crate::words::lemma_bytes_order(
            vstd::utf8::encode_utf8(lowercase(names[order[second] as int])),
            vstd::utf8::encode_utf8(lowercase(names[order[first] as int])),
        );
    }
}

/// Every provider of an option has a group, and every group has an option.
pub proof fn every_provider_has_a_group(
    options: Seq<ModelView>,
    current_provider: Seq<char>,
    current_model: Seq<char>,
    provider: Seq<char>,
)
    requires
        options.len() <= usize::MAX,
    ensures
        (exists|i: int| 0 <= i < options.len() && (#[trigger] options[i]).provider == provider)
            <==> exists|group: int|
            0 <= group < menu_of(options, current_provider, current_model).len() && (
            #[trigger] menu_of(options, current_provider, current_model)[group]).0 == provider,
{
    let menu = menu_of(options, current_provider, current_model);
    let providers = providers_of(options);
    lemma_providers(options);
    let count = providers.len() as int;
    lemma_menu_order(providers, current_provider, count);
    a_menu_is_in_order(providers, current_provider, count);
    let order = menu_order(providers, current_provider, count);
    if exists|i: int| 0 <= i < options.len() && (#[trigger] options[i]).provider == provider {
        let i = choose|i: int|
            0 <= i < options.len() && (#[trigger] options[i]).provider == provider;
        assert(providers.contains(options[i].provider));
        let k = choose|k: int| 0 <= k < providers.len() && providers[k] == provider;
        assert(order.contains(k as usize));
        let group = choose|group: int| 0 <= group < order.len() && order[group] == k as usize;
        assert(menu[group].0 == provider);
    }
    if exists|group: int| 0 <= group < menu.len() && (#[trigger] menu[group]).0 == provider {
        let group = choose|group: int|
            0 <= group < menu.len() && (#[trigger] menu[group]).0 == provider;
        assert(providers[order[group] as int] == provider);
        lemma_provider_is_given(options, provider);
    }
}

proof fn lemma_provider_is_given(options: Seq<ModelView>, provider: Seq<char>)
    requires
        providers_of(options).contains(provider),
    ensures
        exists|i: int| 0 <= i < options.len() && (#[trigger] options[i]).provider == provider,
    decreases options.len(),
{
    let all = providers_of(options);
    let k = choose|k: int| 0 <= k < all.len() && all[k] == provider;
    let rest = options.drop_last();
    let earlier = providers_of(rest);
    if k < earlier.len() && earlier[k] == provider {
        assert(earlier.contains(provider));
        lemma_provider_is_given(rest, provider);
        let i = choose|i: int| 0 <= i < rest.len() && (#[trigger] rest[i]).provider == provider;
        assert(options[i].provider == provider);
    } else {
        assert(options[options.len() - 1].provider == provider);
    }
}

/// The models of a provider stand in order too: the current one first, and the others by
/// name.
pub proof fn models_stand_in_order(
    options: Seq<ModelView>,
    current_provider: Seq<char>,
    current_model: Seq<char>,
    group: int,
    upper: int,
    lower: int,
)
    requires
        options.len() <= usize::MAX,
        0 <= group < menu_of(options, current_provider, current_model).len(),
        0 <= upper < lower < menu_of(options, current_provider, current_model)[group].1.len(),
    ensures
        ({
            let models = menu_of(options, current_provider, current_model)[group].1;
            may_stand_above(models[upper].model, models[lower].model, current_model)
        }),
{
    let menu = menu_of(options, current_provider, current_model);
    let providers = providers_of(options);
    lemma_providers(options);
    lemma_menu_order(providers, current_provider, providers.len() as int);
    let provider = menu[group].0;
    let own = options_of(options, provider);
    lemma_own_fits(options, provider);
    let names = own.map_values(|option: ModelView| option.model);
    let order = menu_order(names, current_model, names.len() as int);
    lemma_menu_order(names, current_model, names.len() as int);
    assert(menu[group].1 == provider_menu(options, provider, current_model));
    assert(menu[group].1[upper] == own[order[upper] as int]);
    assert(menu[group].1[lower] == own[order[lower] as int]);
    names_stand_in_order(names, current_model, upper, lower);
}

} // verus!
