//! The model menu: providers and their models, the current ones first.

use crate::words::{
    bytes_before, comes_before, lemma_bytes_order, lemma_bytes_order_transitive, lowercase,
    same_text, text_before_in_order, to_lowercase,
};
use core::cmp::Ordering;
use vstd::prelude::*;
use vstd::utf8::encode_utf8;

verus! {

/// A model that can be chosen.
#[derive(Debug)]
pub struct ModelOption {
    pub provider: String,
    pub model: String,
}

pub struct ModelView {
    pub provider: Seq<char>,
    pub model: Seq<char>,
}

impl View for ModelOption {
    type V = ModelView;

    open spec fn view(&self) -> ModelView {
        ModelView { provider: self.provider@, model: self.model@ }
    }
}

impl Clone for ModelOption {
    fn clone(&self) -> (copy: ModelOption)
        ensures
            copy@ == self@,
    {
        ModelOption { provider: self.provider.clone(), model: self.model.clone() }
    }
}

/// What options hold, in order.
pub open spec fn models_view(options: Seq<ModelOption>) -> Seq<ModelView> {
    options.map_values(|option: ModelOption| option@)
}

/// Whether `left` comes after `right` in a menu: the current one comes first, the others
/// by their names in lower case.
pub open spec fn comes_after(left: Seq<char>, right: Seq<char>, current: Seq<char>) -> bool {
    if left == current && right != current {
        false
    } else if right == current && left != current {
        true
    } else {
        text_before_in_order(lowercase(right), lowercase(left))
    }
}

/// The order of two names in a menu.
pub fn provider_order(lhs: &str, rhs: &str, current: &str) -> (order: Ordering)
    ensures
        order == (if comes_after(lhs@, rhs@, current@) {
            Ordering::Greater
        } else if comes_after(rhs@, lhs@, current@) {
            Ordering::Less
        } else {
            Ordering::Equal
        }),
{
    let left_is_current: bool = same_text(lhs, current);
    let right_is_current: bool = same_text(rhs, current);
    if left_is_current && !right_is_current {
        return Ordering::Less;
    }
    if right_is_current && !left_is_current {
        return Ordering::Greater;
    }
    let left: String = to_lowercase(lhs);
    let right: String = to_lowercase(rhs);
    proof {
        lemma_bytes_order(encode_utf8(left@), encode_utf8(right@));
    }
    if comes_before(left.as_str(), right.as_str()) {
        Ordering::Less
    } else if comes_before(right.as_str(), left.as_str()) {
        Ordering::Greater
    } else {
        Ordering::Equal
    }
}

/// The order of two models in a menu.
pub fn model_order(lhs: &str, rhs: &str, current: &str) -> (order: Ordering)
    ensures
        order == (if comes_after(lhs@, rhs@, current@) {
            Ordering::Greater
        } else if comes_after(rhs@, lhs@, current@) {
            Ordering::Less
        } else {
            Ordering::Equal
        }),
{
    provider_order(lhs, rhs, current)
}

/// `positions` with `position` put in before the first one whose name comes after its
/// own.
pub open spec fn placed(
    names: Seq<Seq<char>>,
    current: Seq<char>,
    positions: Seq<usize>,
    position: usize,
) -> Seq<usize>
    decreases positions.len(),
{
    if positions.len() > 0 && comes_after(
        names[positions.last() as int],
        names[position as int],
        current,
    ) {
        placed(names, current, positions.drop_last(), position).push(positions.last())
    } else {
        positions.push(position)
    }
}

/// The positions of the first `count` names, in the order of a menu. Names that are
/// equal in it stay in the order in which they were given.
pub open spec fn menu_order(names: Seq<Seq<char>>, current: Seq<char>, count: int) -> Seq<usize>
    decreases count,
{
    if count <= 0 {
        seq![]
    } else {
        placed(names, current, menu_order(names, current, count - 1), (count - 1) as usize)
    }
}

/// The texts of borrowed names.
pub open spec fn names_view(names: Seq<String>) -> Seq<Seq<char>> {
    names.map_values(|name: String| name@)
}

/// What is placed is added, and nothing is lost.
pub proof fn lemma_placed_holds_positions(
    names: Seq<Seq<char>>,
    current: Seq<char>,
    positions: Seq<usize>,
    position: usize,
)
    ensures
        placed(names, current, positions, position).len() == positions.len() + 1,
        placed(names, current, positions, position).to_multiset()
            == positions.to_multiset().insert(position),
        forall|i: int|
            0 <= i < placed(names, current, positions, position).len() ==> positions.contains(
                #[trigger] placed(names, current, positions, position)[i],
            ) || placed(names, current, positions, position)[i] == position,
    decreases positions.len(),
{
    broadcast use vstd::seq_lib::group_to_multiset_ensures;

    let result = placed(names, current, positions, position);
    if positions.len() > 0 && comes_after(
        names[positions.last() as int],
        names[position as int],
        current,
    ) {
        let shorter = positions.drop_last();
        lemma_placed_holds_positions(names, current, shorter, position);
        let inner = placed(names, current, shorter, position);
        assert(positions =~= shorter.push(positions.last()));
        assert(result.to_multiset() =~= positions.to_multiset().insert(position));
        assert forall|i: int| 0 <= i < result.len() implies positions.contains(
            #[trigger] result[i],
        ) || result[i] == position by {
            if i < inner.len() {
                assert(result[i] == inner[i]);
                if shorter.contains(inner[i]) {
                    let k = choose|k: int| 0 <= k < shorter.len() && shorter[k] == inner[i];
                    assert(positions[k] == result[i]);
                }
            } else {
                assert(positions[positions.len() - 1] == result[i]);
            }
        }
    } else {
        assert forall|i: int| 0 <= i < result.len() implies positions.contains(
            #[trigger] result[i],
        ) || result[i] == position by {
            if i < positions.len() {
                assert(positions[i] == result[i]);
            }
        }
    }
}

/// The order of a menu holds the position of every name once.
pub proof fn lemma_menu_order(names: Seq<Seq<char>>, current: Seq<char>, count: int)
    requires
        0 <= count <= names.len(),
        names.len() <= usize::MAX,
    ensures
        menu_order(names, current, count).len() == count,
        forall|i: int|
            0 <= i < count ==> (#[trigger] menu_order(names, current, count)[i]) < count,
    decreases count,
{
    if count > 0 {
        lemma_menu_order(names, current, count - 1);
        let earlier = menu_order(names, current, count - 1);
        lemma_placed_holds_positions(names, current, earlier, (count - 1) as usize);
        let all = menu_order(names, current, count);
        assert forall|i: int| 0 <= i < count implies (#[trigger] all[i]) < count by {
            if earlier.contains(all[i]) {
                let k = choose|k: int| 0 <= k < earlier.len() && earlier[k] == all[i];
                assert(earlier[k] < count - 1);
            }
        }
    }
}

/// The positions of `names` in the order of a menu.
pub fn sorted_positions(names: &Vec<String>, current: &str) -> (positions: Vec<usize>)
    ensures
        positions@ == menu_order(names_view(names@), current@, names@.len() as int),
        positions@.len() == names@.len(),
        forall|i: int| 0 <= i < positions@.len() ==> #[trigger] positions@[i] < names@.len(),
{
    let ghost all = names_view(names@);
    let mut positions: Vec<usize> = Vec::new();
    let mut count: usize = 0;
    while count < names.len()
        invariant
            all == names_view(names@),
            count <= names@.len(),
            positions@.len() == count,
            positions@ == menu_order(all, current@, count as int),
        decreases names@.len() - count,
    {
        proof {
            lemma_menu_order(all, current@, count as int);
        }
        let ghost before = positions@;
        let ghost none: Seq<usize> = seq![];
        let mut at: usize = positions.len();
        proof {
            assert(before.take(at as int) =~= before);
            assert(before.skip(at as int) =~= none);
            assert(placed(all, current@, before, count) =~= placed(
                all,
                current@,
                before.take(at as int),
                count,
            ) + before.skip(at as int));
        }
        while at > 0 && follows(&names[positions[at - 1]], &names[count], current)
            invariant
                all == names_view(names@),
                count < names@.len(),
                positions@ == before,
                before.len() == count,
                at <= before.len(),
                forall|i: int| 0 <= i < before.len() ==> #[trigger] before[i] < count,
                placed(all, current@, before, count) == placed(
                    all,
                    current@,
                    before.take(at as int),
                    count,
                ) + before.skip(at as int),
            decreases at,
        {
            proof {
                let longer = before.take(at as int);
                assert(longer.drop_last() =~= before.take(at - 1));
                assert(longer.last() == before[at - 1]);
                assert(before.skip(at - 1) =~= seq![before[at - 1]] + before.skip(at as int));
                assert(placed(all, current@, longer, count) + before.skip(at as int) =~= placed(
                    all,
                    current@,
                    before.take(at - 1),
                    count,
                ) + before.skip(at - 1));
            }
            at -= 1;
        }
        positions.insert(at, count);
        proof {
            let shorter = before.take(at as int);
            if at > 0 {
                assert(shorter.last() == before[at - 1]);
            }
            assert(placed(all, current@, shorter, count) == shorter.push(count));
            assert(positions@ =~= shorter.push(count) + before.skip(at as int));
        }
        count += 1;
    }
    proof {
        lemma_menu_order(all, current@, names@.len() as int);
    }
    positions
}

fn follows(left: &String, right: &String, current: &str) -> (after: bool)
    ensures
        after == comes_after(left@, right@, current@),
{
    match provider_order(left.as_str(), right.as_str(), current) {
        Ordering::Greater => true,
        Ordering::Less => {
            proof {
                lemma_not_both(left@, right@, current@);
            }
            false
        },
        Ordering::Equal => false,
    }
}

proof fn lemma_not_both(left: Seq<char>, right: Seq<char>, current: Seq<char>)
    ensures
        comes_after(left, right, current) ==> !comes_after(right, left, current),
{
    lemma_bytes_order(encode_utf8(lowercase(left)), encode_utf8(lowercase(right)));
}

// -- the menu ----------------------------------------------------------------------------

/// The providers of the options, each once, in the order in which they first come.
pub open spec fn providers_of(options: Seq<ModelView>) -> Seq<Seq<char>>
    decreases options.len(),
{
    if options.len() == 0 {
        seq![]
    } else {
        let earlier = providers_of(options.drop_last());
        if earlier.contains(options.last().provider) {
            earlier
        } else {
            earlier.push(options.last().provider)
        }
    }
}

/// The options of one provider, in order.
pub open spec fn options_of(options: Seq<ModelView>, provider: Seq<char>) -> Seq<ModelView> {
    options.filter(|option: ModelView| option.provider == provider)
}

/// The options of one provider in the order of the menu.
pub open spec fn provider_menu(
    options: Seq<ModelView>,
    provider: Seq<char>,
    current_model: Seq<char>,
) -> Seq<ModelView> {
    let own = options_of(options, provider);
    let names = own.map_values(|option: ModelView| option.model);
    let order = menu_order(names, current_model, names.len() as int);
    order.map_values(|position: usize| own[position as int])
}

/// The menu: the providers in order, each with its models in order.
pub open spec fn menu_of(
    options: Seq<ModelView>,
    current_provider: Seq<char>,
    current_model: Seq<char>,
) -> Seq<(Seq<char>, Seq<ModelView>)> {
    let providers = providers_of(options);
    let order = menu_order(providers, current_provider, providers.len() as int);
    order.map_values(
        |position: usize|
            (
                providers[position as int],
                provider_menu(options, providers[position as int], current_model),
            ),
    )
}

/// What a menu holds.
pub open spec fn menu_view(menu: Seq<(String, Vec<ModelOption>)>) -> Seq<
    (Seq<char>, Seq<ModelView>),
> {
    menu.map_values(|group: (String, Vec<ModelOption>)| (group.0@, models_view(group.1@)))
}

fn contains_name(names: &Vec<String>, name: &str) -> (found: bool)
    ensures
        found == names_view(names@).contains(name@),
{
    let mut index: usize = 0;
    while index < names.len()
        invariant
            index <= names@.len(),
            forall|i: int| 0 <= i < index ==> (#[trigger] names@[i])@ != name@,
        decreases names@.len() - index,
    {
        if same_text(names[index].as_str(), name) {
            assert(names_view(names@)[index as int] == name@);
            return true;
        }
        index += 1;
    }
    proof {
        if names_view(names@).contains(name@) {
            let i = choose|i: int|
                0 <= i < names_view(names@).len() && names_view(names@)[i] == name@;
            assert(names@[i]@ == name@);
        }
    }
    false
}

fn providers(options: &Vec<ModelOption>) -> (names: Vec<String>)
    ensures
        names_view(names@) == providers_of(models_view(options@)),
{
    let ghost all = models_view(options@);
    let mut names: Vec<String> = Vec::new();
    let mut index: usize = 0;
    proof {
        assert(all.take(0) =~= Seq::<ModelView>::empty());
        assert(names_view(names@) =~= seq![]);
    }
    while index < options.len()
        invariant
            all == models_view(options@),
            index <= options@.len(),
            names_view(names@) == providers_of(all.take(index as int)),
        decreases options@.len() - index,
    {
        let ghost before = names@;
        if !contains_name(&names, options[index].provider.as_str()) {
            names.push(options[index].provider.clone());
            assert(names_view(names@) =~= names_view(before).push(
                options@[index as int].provider@,
            ));
        }
        proof {
            let longer = all.take(index + 1);
            assert(longer.drop_last() =~= all.take(index as int));
            assert(longer.last() == options@[index as int]@);
        }
        index += 1;
    }
    assert(all.take(all.len() as int) =~= all);
    names
}

fn provider_models(options: &Vec<ModelOption>, provider: &str, current_model: &str) -> (menu: Vec<
    ModelOption,
>)
    ensures
        models_view(menu@) == provider_menu(models_view(options@), provider@, current_model@),
{
    let ghost all = models_view(options@);
    let ghost own_only = |option: ModelView| option.provider == provider@;
    let mut own: Vec<ModelOption> = Vec::new();
    let mut names: Vec<String> = Vec::new();
    let mut index: usize = 0;
    proof {
        reveal(Seq::filter);
        assert(all.take(0) =~= Seq::<ModelView>::empty());
        assert(models_view(own@) =~= Seq::<ModelView>::empty());
    }
    while index < options.len()
        invariant
            all == models_view(options@),
            own_only == (|option: ModelView| option.provider == provider@),
            index <= options@.len(),
            models_view(own@) == all.take(index as int).filter(own_only),
            names@.len() == own@.len(),
            forall|i: int| 0 <= i < own@.len() ==> (#[trigger] names@[i])@ == own@[i]@.model,
        decreases options@.len() - index,
    {
        let ghost before = own@;
        if same_text(options[index].provider.as_str(), provider) {
            own.push(options[index].clone());
            names.push(options[index].model.clone());
            assert(models_view(own@) =~= models_view(before).push(options@[index as int]@));
        }
        proof {
            reveal(Seq::filter);
            let longer = all.take(index + 1);
            assert(longer.drop_last() =~= all.take(index as int));
            assert(longer.last() == options@[index as int]@);
        }
        index += 1;
    }
    proof {
        assert(all.take(all.len() as int) =~= all);
        assert(names_view(names@) =~= models_view(own@).map_values(
            |option: ModelView| option.model,
        ));
    }
    let order: Vec<usize> = sorted_positions(&names, current_model);
    let mut menu: Vec<ModelOption> = Vec::new();
    let mut index: usize = 0;
    while index < order.len()
        invariant
            index <= order@.len(),
            menu@.len() == index,
            order@.len() == own@.len(),
            forall|i: int| 0 <= i < order@.len() ==> #[trigger] order@[i] < own@.len(),
            forall|i: int| 0 <= i < index ==> (#[trigger] menu@[i])@ == own@[order@[i] as int]@,
        decreases order@.len() - index,
    {
        menu.push(own[order[index]].clone());
        index += 1;
    }
    assert(models_view(menu@) =~= order@.map_values(
        |position: usize| models_view(own@)[position as int],
    ));
    menu
}

/// Group the options by provider, in the order of the menu.
pub fn provider_groups(
    options: &Vec<ModelOption>,
    current_provider: &str,
    current_model: &str,
) -> (menu: Vec<(String, Vec<ModelOption>)>)
    ensures
        menu_view(menu@) == menu_of(models_view(options@), current_provider@, current_model@),
{
    let names: Vec<String> = providers(options);
    let order: Vec<usize> = sorted_positions(&names, current_provider);
    let mut menu: Vec<(String, Vec<ModelOption>)> = Vec::new();
    let mut index: usize = 0;
    while index < order.len()
        invariant
            index <= order@.len(),
            menu@.len() == index,
            order@.len() == names@.len(),
            forall|i: int| 0 <= i < order@.len() ==> #[trigger] order@[i] < names@.len(),
            forall|i: int|
                0 <= i < index ==> (#[trigger] menu@[i]).0@ == names@[order@[i] as int]@
                    && models_view(menu@[i].1@) == provider_menu(
                    models_view(options@),
                    names@[order@[i] as int]@,
                    current_model@,
                ),
        decreases order@.len() - index,
    {
        let name: &String = &names[order[index]];
        let models: Vec<ModelOption> = provider_models(options, name.as_str(), current_model);
        menu.push((name.clone(), models));
        index += 1;
    }
    assert(menu_view(menu@) =~= menu_of(
        models_view(options@),
        current_provider@,
        current_model@,
    ));
    menu
}

// -- laws --------------------------------------------------------------------------------

/// What does not come after something that does not come after `right` does not come
/// after `right`.
proof fn lemma_menu_order_transitive(
    left: Seq<char>,
    middle: Seq<char>,
    right: Seq<char>,
    current: Seq<char>,
)
    requires
        !comes_after(left, middle, current),
        !comes_after(middle, right, current),
    ensures
        !comes_after(left, right, current),
{
    let a = encode_utf8(lowercase(left));
    let b = encode_utf8(lowercase(middle));
    let c = encode_utf8(lowercase(right));
    lemma_bytes_order(a, b);
    lemma_bytes_order(b, c);
    lemma_bytes_order(a, c);
    if bytes_before(c, a) {
        if bytes_before(b, c) {
            lemma_bytes_order_transitive(b, c, a);
        }
        if bytes_before(a, b) {
            lemma_bytes_order_transitive(c, a, b);
        }
    }
}

/// Whether positions stand in the order of a menu.
pub open spec fn in_menu_order(
    names: Seq<Seq<char>>,
    current: Seq<char>,
    positions: Seq<usize>,
) -> bool {
    forall|i: int, j: int|
        #![trigger positions[i], positions[j]]
        0 <= i < j < positions.len() ==> !comes_after(
            names[positions[i] as int],
            names[positions[j] as int],
            current,
        )
}

proof fn lemma_placed_in_order(
    names: Seq<Seq<char>>,
    current: Seq<char>,
    positions: Seq<usize>,
    position: usize,
)
    requires
        in_menu_order(names, current, positions),
    ensures
        in_menu_order(names, current, placed(names, current, positions, position)),
    decreases positions.len(),
{
    let result = placed(names, current, positions, position);
    if positions.len() > 0 {
        let last = positions.last();
        if comes_after(names[last as int], names[position as int], current) {
            let shorter = positions.drop_last();
            lemma_placed_in_order(names, current, shorter, position);
            lemma_placed_holds_positions(names, current, shorter, position);
            lemma_not_both(names[last as int], names[position as int], current);
            let inner = placed(names, current, shorter, position);
            assert forall|i: int, j: int|
                #![trigger result[i], result[j]]
                0 <= i < j < result.len() implies !comes_after(
                names[result[i] as int],
                names[result[j] as int],
                current,
            ) by {
                assert(result[i] == inner[i]);
                if j < inner.len() {
                    assert(result[j] == inner[j]);
                } else if shorter.contains(inner[i]) {
                    let k = choose|k: int| 0 <= k < shorter.len() && shorter[k] == inner[i];
                    assert(positions[k] == inner[i]);
                    assert(positions[positions.len() - 1] == last);
                }
            }
        } else {
            assert forall|i: int, j: int|
                #![trigger result[i], result[j]]
                0 <= i < j < result.len() implies !comes_after(
                names[result[i] as int],
                names[result[j] as int],
                current,
            ) by {
                assert(result[i] == positions[i]);
                if j < positions.len() {
                    assert(result[j] == positions[j]);
                } else if i < positions.len() - 1 {
                    assert(positions[positions.len() - 1] == last);
                    lemma_menu_order_transitive(
                        names[positions[i] as int],
                        names[last as int],
                        names[position as int],
                        current,
                    );
                }
            }
        }
    }
}

/// A menu is in order, and holds every name once.
pub proof fn a_menu_is_in_order(names: Seq<Seq<char>>, current: Seq<char>, count: int)
    requires
        0 <= count <= names.len(),
        names.len() <= usize::MAX,
    ensures
        in_menu_order(names, current, menu_order(names, current, count)),
        menu_order(names, current, count).len() == count,
        forall|position: int|
            0 <= position < count ==> menu_order(names, current, count).contains(
                #[trigger] (position as usize),
            ),
    decreases count,
{
    lemma_menu_order(names, current, count);
    if count > 0 {
        a_menu_is_in_order(names, current, count - 1);
        let earlier = menu_order(names, current, count - 1);
        let added = (count - 1) as usize;
        let all = menu_order(names, current, count);
        lemma_placed_in_order(names, current, earlier, added);
        lemma_placed_holds_positions(names, current, earlier, added);
        broadcast use vstd::seq_lib::group_to_multiset_ensures;

        assert forall|position: int| 0 <= position < count implies all.contains(
            #[trigger] (position as usize),
        ) by {
            if position < count - 1 {
                assert(earlier.contains(position as usize));
            }
            assert(earlier.to_multiset().insert(added).count(position as usize) > 0);
            assert(all.to_multiset().count(position as usize) > 0);
        }
    }
}

/// The current name, where it is among the names, comes first in its menu.
pub proof fn the_current_name_comes_first(names: Seq<Seq<char>>, current: Seq<char>)
    requires
        names.contains(current),
        names.len() <= usize::MAX,
    ensures
        names[menu_order(names, current, names.len() as int)[0] as int] == current,
{
    let count = names.len() as int;
    a_menu_is_in_order(names, current, count);
    lemma_menu_order(names, current, count);
    let order = menu_order(names, current, count);
    let at = choose|at: int| 0 <= at < names.len() && names[at] == current;
    assert(order.contains(at as usize));
    let k = choose|k: int| 0 <= k < order.len() && order[k] == at as usize;
    if k > 0 {
        assert(!comes_after(names[order[0] as int], names[order[k] as int], current));
    }
}

/// The models of a menu, group after group.
pub open spec fn all_models(menu: Seq<(Seq<char>, Seq<ModelView>)>) -> Seq<ModelView>
    decreases menu.len(),
{
    if menu.len() == 0 {
        seq![]
    } else {
        all_models(menu.drop_last()) + menu.last().1
    }
}

/// Putting a position in puts its item in, wherever that is.
proof fn lemma_placed_items<A>(
    items: Seq<A>,
    names: Seq<Seq<char>>,
    current: Seq<char>,
    positions: Seq<usize>,
    position: usize,
)
    ensures
        placed(names, current, positions, position).map_values(
            |at: usize| items[at as int],
        ).to_multiset() == positions.map_values(
            |at: usize| items[at as int],
        ).to_multiset().insert(items[position as int]),
    decreases positions.len(),
{
    broadcast use vstd::seq_lib::group_to_multiset_ensures;

    let item = |at: usize| items[at as int];
    let result = placed(names, current, positions, position);
    if positions.len() > 0 && comes_after(
        names[positions.last() as int],
        names[position as int],
        current,
    ) {
        let shorter = positions.drop_last();
        lemma_placed_items(items, names, current, shorter, position);
        let inner = placed(names, current, shorter, position);
        assert(result.map_values(item) =~= inner.map_values(item).push(item(positions.last())));
        assert(positions.map_values(item) =~= shorter.map_values(item).push(
            item(positions.last()),
        ));
        assert(result.map_values(item).to_multiset() =~= positions.map_values(
            item,
        ).to_multiset().insert(items[position as int]));
    } else {
        assert(result.map_values(item) =~= positions.map_values(item).push(item(position)));
    }
}

/// The order of a menu loses no item and repeats none.
proof fn lemma_menu_items<A>(
    items: Seq<A>,
    names: Seq<Seq<char>>,
    current: Seq<char>,
    count: int,
)
    requires
        0 <= count <= items.len(),
        items.len() <= usize::MAX,
    ensures
        menu_order(names, current, count).map_values(|at: usize| items[at as int]).to_multiset()
            == items.take(count).to_multiset(),
    decreases count,
{
    broadcast use vstd::seq_lib::group_to_multiset_ensures;

    let item = |at: usize| items[at as int];
    if count > 0 {
        lemma_menu_items(items, names, current, count - 1);
        let earlier = menu_order(names, current, count - 1);
        lemma_placed_items(items, names, current, earlier, (count - 1) as usize);
        assert(items.take(count) =~= items.take(count - 1).push(items[count - 1]));
    } else {
        assert(menu_order(names, current, count).map_values(item) =~= items.take(0));
    }
}

/// Among the options of one provider, its own options are as often as they were, and no
/// others are.
proof fn lemma_own_options(options: Seq<ModelView>, provider: Seq<char>, option: ModelView)
    ensures
        options_of(options, provider).to_multiset().count(option) == if option.provider
            == provider {
            options.to_multiset().count(option)
        } else {
            0
        },
    decreases options.len(),
{
    broadcast use vstd::seq_lib::group_to_multiset_ensures;

    reveal(Seq::filter);
    let own_only = |option: ModelView| option.provider == provider;
    if options.len() > 0 {
        let rest = options.drop_last();
        lemma_own_options(rest, provider, option);
        assert(options =~= rest.push(options.last()));
        assert(options_of(options, provider) == if own_only(options.last()) {
            options_of(rest, provider).push(options.last())
        } else {
            options_of(rest, provider)
        });
    } else {
        assert(options_of(options, provider) =~= Seq::<ModelView>::empty());
        assert(options =~= Seq::<ModelView>::empty());
    }
}

/// Every option's provider is among the providers, and none is among them twice.
pub proof fn lemma_providers(options: Seq<ModelView>)
    ensures
        providers_of(options).no_duplicates(),
        providers_of(options).len() <= options.len(),
        forall|i: int|
            0 <= i < options.len() ==> providers_of(options).contains(
                (#[trigger] options[i]).provider,
            ),
    decreases options.len(),
{
    if options.len() > 0 {
        let rest = options.drop_last();
        lemma_providers(rest);
        let earlier = providers_of(rest);
        let all = providers_of(options);
        assert forall|i: int| 0 <= i < options.len() implies all.contains(
            (#[trigger] options[i]).provider,
        ) by {
            if i < rest.len() {
                assert(earlier.contains(rest[i].provider));
                let k = choose|k: int| 0 <= k < earlier.len() && earlier[k] == rest[i].provider;
                assert(all[k] == options[i].provider);
            } else if !earlier.contains(options.last().provider) {
                assert(all[all.len() - 1] == options[i].provider);
            }
        }
    }
}

/// How often an option is among the models of some groups.
spec fn group_count(menu: Seq<(Seq<char>, Seq<ModelView>)>, option: ModelView) -> int
    decreases menu.len(),
{
    if menu.len() == 0 {
        0
    } else {
        group_count(menu.drop_last(), option) + menu.last().1.to_multiset().count(option)
    }
}

proof fn lemma_group_count(menu: Seq<(Seq<char>, Seq<ModelView>)>, option: ModelView)
    ensures
        all_models(menu).to_multiset().count(option) == group_count(menu, option),
    decreases menu.len(),
{
    broadcast use vstd::seq_lib::group_to_multiset_ensures;

    if menu.len() > 0 {
        lemma_group_count(menu.drop_last(), option);
        vstd::seq_lib::lemma_multiset_commutative(all_models(menu.drop_last()), menu.last().1);
    } else {
        assert(all_models(menu) =~= Seq::<ModelView>::empty());
    }
}

/// Putting a group in adds its models, wherever that is.
proof fn lemma_placed_groups(
    groups: Seq<(Seq<char>, Seq<ModelView>)>,
    names: Seq<Seq<char>>,
    current: Seq<char>,
    positions: Seq<usize>,
    position: usize,
    option: ModelView,
)
    ensures
        group_count(
            placed(names, current, positions, position).map_values(|at: usize| groups[at as int]),
            option,
        ) == group_count(positions.map_values(|at: usize| groups[at as int]), option)
            + groups[position as int].1.to_multiset().count(option),
    decreases positions.len(),
{
    let group = |at: usize| groups[at as int];
    let result = placed(names, current, positions, position);
    if positions.len() > 0 && comes_after(
        names[positions.last() as int],
        names[position as int],
        current,
    ) {
        let shorter = positions.drop_last();
        lemma_placed_groups(groups, names, current, shorter, position, option);
        let inner = placed(names, current, shorter, position);
        assert(result.map_values(group).drop_last() =~= inner.map_values(group));
        assert(positions.map_values(group).drop_last() =~= shorter.map_values(group));
    } else {
        assert(result.map_values(group).drop_last() =~= positions.map_values(group));
    }
}

/// In whatever order the groups stand, they hold the same models.
proof fn lemma_menu_groups(
    groups: Seq<(Seq<char>, Seq<ModelView>)>,
    names: Seq<Seq<char>>,
    current: Seq<char>,
    count: int,
    option: ModelView,
)
    requires
        0 <= count <= groups.len(),
        groups.len() <= usize::MAX,
    ensures
        group_count(
            menu_order(names, current, count).map_values(|at: usize| groups[at as int]),
            option,
        ) == group_count(groups.take(count), option),
    decreases count,
{
    let group = |at: usize| groups[at as int];
    if count > 0 {
        lemma_menu_groups(groups, names, current, count - 1, option);
        let earlier = menu_order(names, current, count - 1);
        lemma_placed_groups(groups, names, current, earlier, (count - 1) as usize, option);
        assert(groups.take(count).drop_last() =~= groups.take(count - 1));
    } else {
        assert(menu_order(names, current, count).map_values(group) =~= groups.take(0));
    }
}

/// Over the groups of different providers, an option is counted in its own alone.
proof fn lemma_counted_once(
    options: Seq<ModelView>,
    groups: Seq<(Seq<char>, Seq<ModelView>)>,
    current_model: Seq<char>,
    option: ModelView,
)
    requires
        options.len() <= usize::MAX,
        forall|i: int|
            0 <= i < groups.len() ==> (#[trigger] groups[i]).1 == provider_menu(
                options,
                groups[i].0,
                current_model,
            ),
        forall|i: int, j: int|
            0 <= i < j < groups.len() ==> (#[trigger] groups[i]).0 != (#[trigger] groups[j]).0,
    ensures
        group_count(groups, option) == if exists|i: int|
            0 <= i < groups.len() && (#[trigger] groups[i]).0 == option.provider {
            options.to_multiset().count(option) as int
        } else {
            0
        },
    decreases groups.len(),
{
    if groups.len() > 0 {
        let rest = groups.drop_last();
        let last = groups.last();
        assert forall|i: int| 0 <= i < rest.len() implies (#[trigger] rest[i]).1 == provider_menu(
            options,
            rest[i].0,
            current_model,
        ) by {
            assert(rest[i] == groups[i]);
        }
        assert forall|i: int, j: int| 0 <= i < j < rest.len() implies (#[trigger] rest[i]).0 != (
        #[trigger] rest[j]).0 by {
            assert(rest[i] == groups[i] && rest[j] == groups[j]);
        }
        lemma_counted_once(options, rest, current_model, option);
        assert(groups[groups.len() - 1] == last);
        let own = options_of(options, last.0);
        lemma_own_options(options, last.0, option);
        lemma_own_fits(options, last.0);
        let names = own.map_values(|option: ModelView| option.model);
        lemma_menu_items(own, names, current_model, own.len() as int);
        assert(own.take(own.len() as int) =~= own);
        assert(last.1.to_multiset() == own.to_multiset());
        if last.0 == option.provider {
            if exists|i: int| 0 <= i < rest.len() && (#[trigger] rest[i]).0 == option.provider {
                let i = choose|i: int|
                    0 <= i < rest.len() && (#[trigger] rest[i]).0 == option.provider;
                assert(groups[i].0 != groups[groups.len() - 1].0);
            }
        } else {
            if exists|i: int| 0 <= i < groups.len() && (#[trigger] groups[i]).0
                == option.provider {
                let i = choose|i: int|
                    0 <= i < groups.len() && (#[trigger] groups[i]).0 == option.provider;
                assert(rest[i] == groups[i]);
            }
            if exists|i: int| 0 <= i < rest.len() && (#[trigger] rest[i]).0 == option.provider {
                let i = choose|i: int|
                    0 <= i < rest.len() && (#[trigger] rest[i]).0 == option.provider;
                assert(groups[i] == rest[i]);
            }
        }
    }
}

/// A provider has no more options than there are.
pub proof fn lemma_own_fits(options: Seq<ModelView>, provider: Seq<char>)
    ensures
        options_of(options, provider).len() <= options.len(),
    decreases options.len(),
{
    reveal(Seq::filter);
    if options.len() > 0 {
        lemma_own_fits(options.drop_last(), provider);
    }
}

/// The groups of a menu together hold every option exactly as often as it was given, and
/// each stands in the group of its own provider.
pub proof fn a_menu_holds_every_option_once(
    options: Seq<ModelView>,
    current_provider: Seq<char>,
    current_model: Seq<char>,
)
    requires
        options.len() <= usize::MAX,
    ensures
        all_models(menu_of(options, current_provider, current_model)).to_multiset()
            == options.to_multiset(),
        forall|group: int, model: int|
            #![trigger menu_of(options, current_provider, current_model)[group].1[model]]
            0 <= group < menu_of(options, current_provider, current_model).len() && 0 <= model
                < menu_of(options, current_provider, current_model)[group].1.len()
                ==> menu_of(options, current_provider, current_model)[group].1[model].provider
                == menu_of(options, current_provider, current_model)[group].0,
{
    broadcast use vstd::seq_lib::group_to_multiset_ensures;

    let menu = menu_of(options, current_provider, current_model);
    let providers = providers_of(options);
    lemma_providers(options);
    let groups = Seq::new(
        providers.len(),
        |i: int| (providers[i], provider_menu(options, providers[i], current_model)),
    );
    let order = menu_order(providers, current_provider, providers.len() as int);
    lemma_menu_order(providers, current_provider, providers.len() as int);
    assert(menu =~= order.map_values(|at: usize| groups[at as int]));
    assert(groups.take(groups.len() as int) =~= groups);
    assert forall|option: ModelView|
        #![trigger all_models(menu).to_multiset().count(option)]
        all_models(menu).to_multiset().count(option) == options.to_multiset().count(option) by {
        lemma_group_count(menu, option);
        lemma_menu_groups(groups, providers, current_provider, groups.len() as int, option);
        lemma_counted_once(options, groups, current_model, option);
        if options.contains(option) {
            let i = choose|i: int| 0 <= i < options.len() && options[i] == option;
            assert(providers.contains(options[i].provider));
            let k = choose|k: int| 0 <= k < providers.len() && providers[k] == option.provider;
            assert(groups[k].0 == option.provider);
        } else {
            assert(options.to_multiset().count(option) == 0);
        }
    }
    assert(all_models(menu).to_multiset() =~= options.to_multiset());
    assert forall|group: int, model: int|
        #![trigger menu[group].1[model]]
        0 <= group < menu.len() && 0 <= model < menu[group].1.len() implies menu[group].1[model].provider
        == menu[group].0 by {
        let provider = menu[group].0;
        let own = options_of(options, provider);
        lemma_own_fits(options, provider);
        let names = own.map_values(|option: ModelView| option.model);
        lemma_menu_order(names, current_model, names.len() as int);
        let at = menu_order(names, current_model, names.len() as int)[model];
        assert(menu[group].1[model] == own[at as int]);
        options.lemma_filter_pred(|option: ModelView| option.provider == provider, at as int);
    }
}

} // verus!
