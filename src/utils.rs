//! Command line parameter parsing and matrix transposition.
use crate::text::{chars_eq, chars_of, nested_view, parse_values, parse_values_of, split_chars, split_on};
use vstd::prelude::*;

verus! {

/// The keys of the command line grammar. Their order is the order in which
/// they must first appear, and the column of each in the parameter matrix.
#[derive(Clone, Copy, Debug, PartialEq, Eq)]
pub enum ParamKey {
    /// Frontend id.
    VmId,
    /// Device compatibility id (22 for I2C, say).
    DevId,
    /// Device interrupt line.
    DevIrq,
    /// Device MMIO base address.
    DevAddr,
    /// Guest RAM address.
    RamAddr,
    /// Guest RAM size.
    RamSize,
}

/// Number of keys, and of columns in a complete parameter matrix.
pub const NUM_KEYS: usize = 6;

impl ParamKey {
    /// Column of the key in the parameter matrix.
    pub open spec fn column(self) -> nat {
        match self {
            ParamKey::VmId => 0,
            ParamKey::DevId => 1,
            ParamKey::DevIrq => 2,
            ParamKey::DevAddr => 3,
            ParamKey::RamAddr => 4,
            ParamKey::RamSize => 5,
        }
    }

    /// The key's name on the command line.
    pub open spec fn name(self) -> Seq<char> {
        match self {
            ParamKey::VmId => seq!['v', 'm', '_', 'i', 'd'],
            ParamKey::DevId => seq!['d', 'e', 'v', '_', 'i', 'd'],
            ParamKey::DevIrq => seq!['d', 'e', 'v', '_', 'i', 'r', 'q'],
            ParamKey::DevAddr => seq!['d', 'e', 'v', '_', 'a', 'd', 'd', 'r'],
            ParamKey::RamAddr => seq!['r', 'a', 'm', '_', 'a', 'd', 'd', 'r'],
            ParamKey::RamSize => seq!['r', 'a', 'm', '_', 's', 'i', 'z', 'e'],
        }
    }

    /// Column of the key in the parameter matrix.
    pub fn index(&self) -> (r: usize)
        ensures
            r == self.column(),
            r < NUM_KEYS,
    {
        match self {
            ParamKey::VmId => 0,
            ParamKey::DevId => 1,
            ParamKey::DevIrq => 2,
            ParamKey::DevAddr => 3,
            ParamKey::RamAddr => 4,
            ParamKey::RamSize => 5,
        }
    }
}

/// The key at column `i`.
pub open spec fn key_at(i: int) -> ParamKey {
    if i == 0 {
        ParamKey::VmId
    } else if i == 1 {
        ParamKey::DevId
    } else if i == 2 {
        ParamKey::DevIrq
    } else if i == 3 {
        ParamKey::DevAddr
    } else if i == 4 {
        ParamKey::RamAddr
    } else {
        ParamKey::RamSize
    }
}

/// The key whose name is `name`, if any.
pub open spec fn key_named(name: Seq<char>) -> Option<ParamKey> {
    if name == ParamKey::VmId.name() {
        Some(ParamKey::VmId)
    } else if name == ParamKey::DevId.name() {
        Some(ParamKey::DevId)
    } else if name == ParamKey::DevIrq.name() {
        Some(ParamKey::DevIrq)
    } else if name == ParamKey::DevAddr.name() {
        Some(ParamKey::DevAddr)
    } else if name == ParamKey::RamAddr.name() {
        Some(ParamKey::RamAddr)
    } else if name == ParamKey::RamSize.name() {
        Some(ParamKey::RamSize)
    } else {
        None
    }
}

/// Looks up the key named `name`.
fn key_from_name(name: &Vec<char>) -> (r: Option<ParamKey>)
    ensures
        r == key_named(name@),
{
    let vm_id = vec!['v', 'm', '_', 'i', 'd'];
    let dev_id = vec!['d', 'e', 'v', '_', 'i', 'd'];
    let dev_irq = vec!['d', 'e', 'v', '_', 'i', 'r', 'q'];
    let dev_addr = vec!['d', 'e', 'v', '_', 'a', 'd', 'd', 'r'];
    let ram_addr = vec!['r', 'a', 'm', '_', 'a', 'd', 'd', 'r'];
    let ram_size = vec!['r', 'a', 'm', '_', 's', 'i', 'z', 'e'];
    if chars_eq(name, &vm_id) {
        Some(ParamKey::VmId)
    } else if chars_eq(name, &dev_id) {
        Some(ParamKey::DevId)
    } else if chars_eq(name, &dev_irq) {
        Some(ParamKey::DevIrq)
    } else if chars_eq(name, &dev_addr) {
        Some(ParamKey::DevAddr)
    } else if chars_eq(name, &ram_addr) {
        Some(ParamKey::RamAddr)
    } else if chars_eq(name, &ram_size) {
        Some(ParamKey::RamSize)
    } else {
        None
    }
}

/// The texts of the arguments.
pub open spec fn view_args(args: &Vec<String>) -> Seq<Seq<char>> {
    Seq::new(args@.len(), |i: int| args@[i]@)
}

/// The key that the argument `arg` names before its `=`, if any.
pub open spec fn arg_key(arg: Seq<char>) -> Option<ParamKey> {
    key_named(split_on(arg, '=')[0])
}

/// The columns after reading one more argument `arg` of the form
/// `key=v1,v2,...` into `slots`. It fails where `arg` does not hold exactly
/// one `=`, names no key, gives no number, or names a key whose column lies
/// beyond the keys seen so far. A key seen before has its column replaced.
pub open spec fn apply_arg(slots: Seq<Seq<u64>>, arg: Seq<char>) -> Option<Seq<Seq<u64>>> {
    let parts = split_on(arg, '=');
    if parts.len() != 2 {
        None
    } else {
        match key_named(parts[0]) {
            None => None,
            Some(k) => {
                let vals = parse_values_of(parts[1]);
                if vals.len() == 0 || k.column() > slots.len() {
                    None
                } else if k.column() == slots.len() {
                    Some(slots.push(vals))
                } else {
                    Some(slots.update(k.column() as int, vals))
                }
            },
        }
    }
}

/// The columns that the arguments give, read one after another.
pub open spec fn collect_columns(args: Seq<Seq<char>>) -> Option<Seq<Seq<u64>>>
    decreases args.len(),
{
    if args.len() == 0 {
        Some(Seq::empty())
    } else {
        match collect_columns(args.drop_last()) {
            None => None,
            Some(s) => apply_arg(s, args.last()),
        }
    }
}

/// All six columns are there, none of them empty, all of one length.
pub open spec fn columns_complete(m: Seq<Seq<u64>>) -> bool {
    m.len() == NUM_KEYS && m[0].len() > 0 && is_rectangular(m)
}

/// The column-major parameter matrix that the arguments describe, if they
/// describe a complete one.
pub open spec fn parameter_columns(args: Seq<Seq<char>>) -> Option<Seq<Seq<u64>>> {
    match collect_columns(args) {
        Some(m) => if columns_complete(m) {
            Some(m)
        } else {
            None
        },
        None => None,
    }
}

/// The row-major table that the arguments describe: one row
/// `[vm_id, dev_id, dev_irq, dev_addr, ram_addr, ram_size]` per instance.
pub open spec fn parameter_rows(args: Seq<Seq<char>>) -> Option<Seq<Seq<u64>>> {
    match parameter_columns(args) {
        Some(m) => Some(transpose_of(m)),
        None => None,
    }
}

/// Once reading the arguments has failed, reading more of them fails too.
pub proof fn lemma_failure_persists(a: Seq<Seq<char>>, i: int)
    requires
        0 <= i <= a.len(),
        collect_columns(a.take(i)) is None,
    ensures
        collect_columns(a) is None,
    decreases a.len() - i,
{
    if i < a.len() {
        assert(a.take(i + 1).drop_last() =~= a.take(i));
        lemma_failure_persists(a, i + 1);
    } else {
        assert(a.take(i) =~= a);
    }
}

/// A matrix whose rows all have the length of the first one.
pub open spec fn is_rectangular(m: Seq<Seq<u64>>) -> bool {
    forall|i: int| 0 <= i < m.len() ==> #[trigger] m[i].len() == m[0].len()
}

/// The transpose of `m`: column `j` of `m` becomes row `j`. The number of
/// columns is read from the first row; an empty matrix stays empty.
pub open spec fn transpose_of(m: Seq<Seq<u64>>) -> Seq<Seq<u64>> {
    if m.len() == 0 {
        Seq::empty()
    } else {
        Seq::new(m[0].len(), |j: int| Seq::new(m.len(), |i: int| m[i][j]))
    }
}

/// Transposes `matrix`, taking the number of columns from its first row.
pub fn transpose_matrix(matrix: &Vec<Vec<u64>>) -> (r: Vec<Vec<u64>>)
    requires
        forall|i: int|
            0 <= i < matrix@.len() ==> #[trigger] matrix@[i]@.len() >= matrix@[0]@.len(),
    ensures
        nested_view(&r) == transpose_of(nested_view(matrix)),
{
    let mut transposed: Vec<Vec<u64>> = Vec::new();
    if matrix.len() > 0 {
        let rows = matrix.len();
        let cols = matrix[0].len();
        let ghost m = nested_view(matrix);
        let mut j: usize = 0;
        while j < cols
            invariant
                m == nested_view(matrix),
                rows == m.len(),
                rows > 0,
                cols == m[0].len(),
                j <= cols,
                forall|i: int| 0 <= i < rows ==> #[trigger] m[i].len() >= cols,
                nested_view(&transposed) == transpose_of(m).take(j as int),
            decreases cols - j,
        {
            let mut column: Vec<u64> = Vec::new();
            let mut i: usize = 0;
            while i < rows
                invariant
                    m == nested_view(matrix),
                    rows == m.len(),
                    j < cols,
                    i <= rows,
                    forall|k: int| 0 <= k < rows ==> #[trigger] m[k].len() >= cols,
                    column@ == Seq::new(i as nat, |k: int| m[k][j as int]),
                decreases rows - i,
            {
                assert(m[i as int].len() >= cols);
                column.push(matrix[i][j]);
                i += 1;
                assert(column@ =~= Seq::new(i as nat, |k: int| m[k][j as int]));
            }
            let ghost prev = nested_view(&transposed);
            transposed.push(column);
            assert(nested_view(&transposed) =~= prev.push(column@));
            assert(transpose_of(m)[j as int] =~= column@);
            j += 1;
            assert(nested_view(&transposed) =~= transpose_of(m).take(j as int));
        }
        assert(transpose_of(m).take(cols as int) =~= transpose_of(m));
    } else {
        assert(nested_view(&transposed) =~= transpose_of(nested_view(matrix)));
    }
    transposed
}

/// Reads the column-major parameter matrix from the arguments (without the
/// program name), each of the form `key=v1,v2,...`.
pub fn parse_parameter_columns(args: &Vec<String>) -> (r: Option<Vec<Vec<u64>>>)
    ensures
        match r {
            Some(m) => parameter_columns(view_args(args)) == Some(nested_view(&m)),
            None => parameter_columns(view_args(args)) is None,
        },
        r matches Some(m) ==> columns_complete(nested_view(&m)),
{
    let ghost a = view_args(args);
    let mut slots: Vec<Vec<u64>> = Vec::new();
    let mut i: usize = 0;
    while i < args.len()
        invariant
            a == view_args(args),
            i <= a.len(),
            collect_columns(a.take(i as int)) == Some(nested_view(&slots)),
            slots@.len() <= NUM_KEYS,
        decreases a.len() - i,
    {
        assert(a.take(i + 1).drop_last() =~= a.take(i as int));
        assert(a.take(i + 1).last() == a[i as int]);
        let chars = chars_of(&args[i]);
        let parts = split_chars(&chars, '=');
        if parts.len() != 2 {
            proof {
                lemma_failure_persists(a, i + 1);
            }
            return None;
        }
        let key = match key_from_name(&parts[0]) {
            Some(k) => k,
            None => {
                proof {
                    lemma_failure_persists(a, i + 1);
                }
                return None;
            },
        };
        let vals = parse_values(&parts[1]);
        let k = key.index();
        if vals.len() == 0 || k > slots.len() {
            proof {
                lemma_failure_persists(a, i + 1);
            }
            return None;
        }
        let ghost before = nested_view(&slots);
        if k == slots.len() {
            slots.push(vals);
            assert(nested_view(&slots) =~= before.push(parse_values_of(split_on(a[i as int], '=')[1])));
        } else {
            slots.set(k, vals);
            assert(nested_view(&slots) =~= before.update(
                k as int,
                parse_values_of(split_on(a[i as int], '=')[1]),
            ));
        }
        i += 1;
    }
    assert(a.take(a.len() as int) =~= a);
    if slots.len() != NUM_KEYS {
        return None;
    }
    let n = slots[0].len();
    if n == 0 {
        return None;
    }
    let mut j: usize = 1;
    while j < NUM_KEYS
        invariant
            a == view_args(args),
            collect_columns(a) == Some(nested_view(&slots)),
            slots@.len() == NUM_KEYS,
            n == slots@[0]@.len(),
            1 <= j <= NUM_KEYS,
            forall|c: int| 0 <= c < j ==> #[trigger] slots@[c]@.len() == n,
        decreases NUM_KEYS - j,
    {
        if slots[j].len() != n {
            assert(nested_view(&slots)[j as int].len() != nested_view(&slots)[0].len());
            return None;
        }
        j += 1;
    }
    assert(is_rectangular(nested_view(&slots))) by {
        assert forall|c: int| 0 <= c < NUM_KEYS implies #[trigger] nested_view(&slots)[c].len()
            == nested_view(&slots)[0].len() by {
            assert(slots@[c]@.len() == n);
        }
    }
    Some(slots)
}

/// Reads the arguments (without the program name) into the row-major table:
/// one row `[vm_id, dev_id, dev_irq, dev_addr, ram_addr, ram_size]` per
/// instance. Fails, with no reason given, where the arguments do not
/// describe a complete parameter matrix.
pub fn parse_command_line_arguments(args: &Vec<String>) -> (r: Option<Vec<Vec<u64>>>)
    ensures
        match r {
            Some(rows) => parameter_rows(view_args(args)) == Some(nested_view(&rows)),
            None => parameter_rows(view_args(args)) is None,
        },
        r matches Some(rows) ==> rows@.len() > 0 && forall|i: int|
            0 <= i < rows@.len() ==> (#[trigger] rows@[i])@.len() == NUM_KEYS,
{
    match parse_parameter_columns(args) {
        Some(columns) => {
            assert forall|i: int| 0 <= i < columns@.len() implies #[trigger] columns@[i]@.len()
                >= columns@[0]@.len() by {
                assert(nested_view(&columns)[i].len() == nested_view(&columns)[0].len());
            }
            let rows = transpose_matrix(&columns);
            let ghost m = nested_view(&columns);
            assert(m.len() == NUM_KEYS && m[0].len() > 0);
            assert(nested_view(&rows) == transpose_of(m));
            assert(rows@.len() == nested_view(&rows).len());
            assert forall|i: int| 0 <= i < rows@.len() implies (#[trigger] rows@[i])@.len()
                == NUM_KEYS by {
                assert(transpose_of(m)[i].len() == m.len());
                assert(nested_view(&rows)[i].len() == NUM_KEYS);
            }
            Some(rows)
        },
        None => None,
    }
}

} // verus!
