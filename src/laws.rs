//! Properties of the command line grammar and of transposition, proved over
//! the spec functions that the parsing functions' contracts use.
use crate::text::{lemma_split_at_single_sep, parse_values_of, split_on};
use crate::utils::{
    apply_arg, arg_key, collect_columns, is_rectangular, key_at, key_named, lemma_failure_persists,
    parameter_columns, parameter_rows, transpose_of, ParamKey, NUM_KEYS,
};
use vstd::prelude::*;

verus! {

/// The six arguments `vm_id=..`, `dev_id=..`, ... in key order, the `k`-th
/// followed by `texts[k]`.
pub open spec fn in_order_args(texts: Seq<Seq<char>>) -> Seq<Seq<char>> {
    Seq::new(texts.len(), |k: int| key_at(k).name() + seq!['='] + texts[k])
}

/// Transposing a rectangular matrix with at least one row and one column,
/// then transposing the result, gives the matrix back.
pub proof fn lemma_transpose_round_trip(m: Seq<Seq<u64>>)
    requires
        is_rectangular(m),
        m.len() > 0,
        m[0].len() > 0,
    ensures
        is_rectangular(transpose_of(m)),
        transpose_of(transpose_of(m)) == m,
{
    let t = transpose_of(m);
    assert(t[0].len() == m.len());
    assert(is_rectangular(t));
    assert forall|i: int| 0 <= i < m.len() implies #[trigger] transpose_of(t)[i] =~= m[i] by {}
    assert(transpose_of(t) =~= m);
}

/// The key at a key's own column is that key.
pub proof fn lemma_key_at_column(k: ParamKey)
    ensures
        key_at(k.column() as int) == k,
        k.column() < NUM_KEYS,
{
}

/// Each key is found by its own name, and no name holds `=`.
pub proof fn lemma_key_name(k: ParamKey)
    ensures
        key_named(k.name()) == Some(k),
        !k.name().contains('='),
{
    let n = k.name();
    assert(ParamKey::RamAddr.name()[0] != ParamKey::DevAddr.name()[0]);
    assert(ParamKey::RamSize.name()[0] != ParamKey::DevAddr.name()[0]);
    assert(ParamKey::RamSize.name()[4] != ParamKey::RamAddr.name()[4]);
    assert forall|j: int| 0 <= j < n.len() implies n[j] != '=' by {
        match k {
            ParamKey::VmId => {},
            ParamKey::DevId => {},
            ParamKey::DevIrq => {},
            ParamKey::DevAddr => {},
            ParamKey::RamAddr => {},
            ParamKey::RamSize => {},
        }
    }
}

/// The first `i` in-order arguments fill the first `i` columns with their
/// lists, while each of those lists gives at least one number.
pub proof fn lemma_in_order_columns(texts: Seq<Seq<char>>, i: int)
    requires
        texts.len() == NUM_KEYS,
        0 <= i <= NUM_KEYS,
        forall|k: int| 0 <= k < NUM_KEYS ==> !(#[trigger] texts[k]).contains('='),
        forall|k: int| 0 <= k < i ==> (#[trigger] parse_values_of(texts[k])).len() > 0,
    ensures
        collect_columns(in_order_args(texts).take(i)) == Some(
            Seq::new(i as nat, |k: int| parse_values_of(texts[k])),
        ),
    decreases i,
{
    let a = in_order_args(texts);
    if i == 0 {
        assert(a.take(0) =~= Seq::<Seq<char>>::empty());
        assert(Seq::new(0, |k: int| parse_values_of(texts[k])) =~= Seq::<Seq<u64>>::empty());
    } else {
        lemma_in_order_columns(texts, i - 1);
        assert(a.take(i).drop_last() =~= a.take(i - 1));
        let key = key_at(i - 1);
        lemma_key_name(key);
        assert(!texts[i - 1].contains('='));
        lemma_split_at_single_sep(key.name(), texts[i - 1], '=');
        assert(a.take(i).last() == key.name() + seq!['='] + texts[i - 1]);
        assert(key.column() == i - 1);
        assert(Seq::new(i as nat, |k: int| parse_values_of(texts[k])) =~= Seq::new(
            (i - 1) as nat,
            |k: int| parse_values_of(texts[k]),
        ).push(parse_values_of(texts[i - 1])));
    }
}

/// Six arguments that name the keys in order, each followed by a list from
/// which the same number `n >= 1` of values is read, give exactly `n` rows;
/// row `r` holds the `r`-th value of each key, in key order.
pub proof fn lemma_well_formed_rows(texts: Seq<Seq<char>>, n: nat)
    requires
        texts.len() == NUM_KEYS,
        n >= 1,
        forall|k: int| 0 <= k < NUM_KEYS ==> !(#[trigger] texts[k]).contains('='),
        forall|k: int| 0 <= k < NUM_KEYS ==> (#[trigger] parse_values_of(texts[k])).len() == n,
    ensures
        parameter_rows(in_order_args(texts)) is Some,
        parameter_rows(in_order_args(texts))->0.len() == n,
        forall|r: int|
            0 <= r < n ==> (#[trigger] parameter_rows(in_order_args(texts))->0[r]).len()
                == NUM_KEYS,
        forall|r: int, k: int|
            0 <= r < n && 0 <= k < NUM_KEYS ==> #[trigger] parameter_rows(
                in_order_args(texts),
            )->0[r][k] == parse_values_of(texts[k])[r],
{
    let a = in_order_args(texts);
    lemma_in_order_columns(texts, NUM_KEYS as int);
    assert(a.take(NUM_KEYS as int) =~= a);
    let m = Seq::new(NUM_KEYS as nat, |k: int| parse_values_of(texts[k]));
    assert(parse_values_of(texts[0]).len() == n);
    assert(is_rectangular(m));
    assert(parameter_columns(a) == Some(m));
}

/// Six arguments that name the keys in order fail where the lists of two keys
/// give different numbers of values.
pub proof fn lemma_unequal_lengths_fail(texts: Seq<Seq<char>>, i: int, j: int)
    requires
        texts.len() == NUM_KEYS,
        forall|k: int| 0 <= k < NUM_KEYS ==> !(#[trigger] texts[k]).contains('='),
        0 <= i < NUM_KEYS,
        0 <= j < NUM_KEYS,
        parse_values_of(texts[i]).len() != parse_values_of(texts[j]).len(),
    ensures
        parameter_columns(in_order_args(texts)) is None,
        parameter_rows(in_order_args(texts)) is None,
{
    let a = in_order_args(texts);
    if exists|k: int| 0 <= k < NUM_KEYS && (#[trigger] parse_values_of(texts[k])).len() == 0 {
        let e = choose|k: int| 0 <= k < NUM_KEYS && (#[trigger] parse_values_of(texts[k])).len() == 0;
        let f = choose|f: int|
            0 <= f <= e && (#[trigger] parse_values_of(texts[f])).len() == 0 && forall|k: int|
                0 <= k < f ==> (#[trigger] parse_values_of(texts[k])).len() > 0;
        lemma_in_order_columns(texts, f);
        assert(a.take(f + 1).drop_last() =~= a.take(f));
        let key = key_at(f);
        lemma_key_name(key);
        lemma_split_at_single_sep(key.name(), texts[f], '=');
        assert(a.take(f + 1).last() == key.name() + seq!['='] + texts[f]);
        lemma_failure_persists(a, f + 1);
    } else {
        lemma_in_order_columns(texts, NUM_KEYS as int);
        assert(a.take(NUM_KEYS as int) =~= a);
        let m = Seq::new(NUM_KEYS as nat, |k: int| parse_values_of(texts[k]));
        assert(m[i].len() != m[j].len());
        assert(!is_rectangular(m));
    }
}

/// Some argument names `k`.
pub open spec fn some_arg_names(args: Seq<Seq<char>>, k: ParamKey) -> bool {
    exists|i: int| 0 <= i < args.len() && #[trigger] arg_key(args[i]) == Some(k)
}

/// The columns that reading the arguments has filled are each named by one
/// of the arguments.
pub proof fn lemma_columns_named(args: Seq<Seq<char>>)
    ensures
        collect_columns(args) matches Some(s) ==> s.len() <= NUM_KEYS && forall|j: int|
            0 <= j < s.len() ==> some_arg_names(args, #[trigger] key_at(j)),
    decreases args.len(),
{
    if args.len() > 0 {
        let p = args.drop_last();
        lemma_columns_named(p);
        if let Some(s) = collect_columns(p) {
            if let Some(t) = collect_columns(args) {
                let last = args.last();
                let k = arg_key(last)->0;
                lemma_key_at_column(k);
                assert forall|j: int| 0 <= j < t.len() implies some_arg_names(
                    args,
                    #[trigger] key_at(j),
                ) by {
                    if j < s.len() {
                        assert(some_arg_names(p, key_at(j)));
                        let i = choose|i: int|
                            0 <= i < p.len() && #[trigger] arg_key(p[i]) == Some(key_at(j));
                        assert(args[i] == p[i]);
                    } else {
                        assert(arg_key(args[args.len() - 1]) == Some(key_at(j)));
                    }
                }
            }
        }
    }
}

/// Arguments among which none names `key` fail to give a parameter matrix.
pub proof fn lemma_missing_key_fails(args: Seq<Seq<char>>, key: ParamKey)
    requires
        forall|i: int| 0 <= i < args.len() ==> #[trigger] arg_key(args[i]) != Some(key),
    ensures
        parameter_columns(args) is None,
        parameter_rows(args) is None,
{
    lemma_columns_named(args);
    lemma_key_at_column(key);
    if let Some(s) = collect_columns(args) {
        if s.len() == NUM_KEYS {
            let j = key.column() as int;
            assert(0 <= j < s.len());
            assert(some_arg_names(args, key_at(j)));
            let i = choose|i: int| 0 <= i < args.len() && #[trigger] arg_key(args[i]) == Some(key_at(j));
            assert(arg_key(args[i]) != Some(key));
        }
    }
}

} // verus!
