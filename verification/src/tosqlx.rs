//! Rendering filters into a prepared SQL condition: a growing query
//! string with `$n` placeholders and the matching ordered list of
//! argument values. The placeholder syntax is the one the postgres wire
//! protocol prepares.

use vstd::prelude::*;

use vstd::string::StringExecFns;

use crate::filters::{Filter, Order, QueryFilter, UserFilter};
use crate::types::date::{Date, DateFilter, DateFilterKind};
use crate::types::datetime::{DateTime, DateTimeFilter, DateTimeFilterKind};
use crate::types::number::{NumberFilter, NumberFilterKind};
use crate::types::string::{StringFilter, StringFilterKind, StringFilterKindModel};
use crate::types::uuid::{Uuid, UuidFilter, UuidFilterKind, UuidFilterKindModel};

verus! {

/// One bound argument value, in binding order.
#[derive(Debug, PartialEq, Eq)]
pub enum ArgValue {
    Int(i64),
    UInt(u32),
    Text(String),
    Id(Uuid),
    Day(Date),
    Stamp(DateTime),
}

/// The mathematical value of an [`ArgValue`].
pub enum ArgModel {
    Int(i64),
    UInt(u32),
    Text(Seq<char>),
    Id(Uuid),
    Day(Date),
    Stamp(DateTime),
}

impl View for ArgValue {
    type V = ArgModel;

    open spec fn view(&self) -> ArgModel {
        match self {
            ArgValue::Int(v) => ArgModel::Int(*v),
            ArgValue::UInt(v) => ArgModel::UInt(*v),
            ArgValue::Text(s) => ArgModel::Text(s@),
            ArgValue::Id(u) => ArgModel::Id(*u),
            ArgValue::Day(d) => ArgModel::Day(*d),
            ArgValue::Stamp(d) => ArgModel::Stamp(*d),
        }
    }
}

/// The mathematical values of a list of bound arguments.
pub open spec fn arg_views(s: Seq<ArgValue>) -> Seq<ArgModel> {
    s.map_values(|a: ArgValue| a@)
}

/// The decimal digit character for `d`.
pub open spec fn digit_char(d: int) -> char {
    if d == 0 {
        '0'
    } else if d == 1 {
        '1'
    } else if d == 2 {
        '2'
    } else if d == 3 {
        '3'
    } else if d == 4 {
        '4'
    } else if d == 5 {
        '5'
    } else if d == 6 {
        '6'
    } else if d == 7 {
        '7'
    } else if d == 8 {
        '8'
    } else {
        '9'
    }
}

/// The decimal rendering of a nonnegative number.
pub open spec fn spec_digits(n: int) -> Seq<char>
    decreases n,
{
    if n < 10 {
        seq![digit_char(n)]
    } else {
        spec_digits(n / 10).push(digit_char(n % 10))
    }
}

fn digit_str(d: u32) -> (r: &'static str)
    requires
        d < 10,
    ensures
        r@ == seq![digit_char(d as int)],
{
    if d == 0 {
        proof {
            reveal_strlit("0");
            assert("0"@ =~= seq![digit_char(0)]);
        }
        "0"
    } else if d == 1 {
        proof {
            reveal_strlit("1");
            assert("1"@ =~= seq![digit_char(1)]);
        }
        "1"
    } else if d == 2 {
        proof {
            reveal_strlit("2");
            assert("2"@ =~= seq![digit_char(2)]);
        }
        "2"
    } else if d == 3 {
        proof {
            reveal_strlit("3");
            assert("3"@ =~= seq![digit_char(3)]);
        }
        "3"
    } else if d == 4 {
        proof {
            reveal_strlit("4");
            assert("4"@ =~= seq![digit_char(4)]);
        }
        "4"
    } else if d == 5 {
        proof {
            reveal_strlit("5");
            assert("5"@ =~= seq![digit_char(5)]);
        }
        "5"
    } else if d == 6 {
        proof {
            reveal_strlit("6");
            assert("6"@ =~= seq![digit_char(6)]);
        }
        "6"
    } else if d == 7 {
        proof {
            reveal_strlit("7");
            assert("7"@ =~= seq![digit_char(7)]);
        }
        "7"
    } else if d == 8 {
        proof {
            reveal_strlit("8");
            assert("8"@ =~= seq![digit_char(8)]);
        }
        "8"
    } else {
        proof {
            reveal_strlit("9");
            assert("9"@ =~= seq![digit_char(9)]);
        }
        "9"
    }
}

/// The decimal rendering of a number, as a string.
fn u32_string(n: u32) -> (s: String)
    ensures
        s@ == spec_digits(n as int),
    decreases n,
{
    if n < 10 {
        digit_str(n).to_owned()
    } else {
        let mut s = u32_string(n / 10);
        s.append(digit_str(n % 10));
        proof {
            assert(s@ =~= spec_digits(n as int));
        }
        s
    }
}

/// The state a rendering pass threads through: the query text grown so
/// far, the bound arguments, the next placeholder index, the field name
/// the current value renders against, and whether anything was rendered
/// (so that the next field knows to put an `AND` in between).
pub struct Config {
    pub field_name: String,
    pub query: String,
    pub args: Vec<ArgValue>,
    pub index: u32,
    pub used: bool,
}

/// What a value renders: text appended to the query, arguments appended
/// to the binding list, the placeholder index advanced once per bound
/// argument. `emits` receives the field name, the first placeholder index
/// and the incoming used flag; `used_after` says what the flag becomes.
pub trait ToSql {
    /// The precondition this value puts on rendering.
    spec fn req(&self) -> bool;

    /// The text this value appends.
    spec fn emits(&self, field: Seq<char>, idx: int, used: bool) -> Seq<char>;

    /// The argument values this value binds, in order.
    spec fn args_of(&self) -> Seq<ArgModel>;

    /// The used flag after rendering, given the flag before.
    spec fn used_after(&self, used: bool) -> bool;

    /// Render this value into the configuration.
    fn to_sql(&self, config: &mut Config)
        requires
            self.req(),
            old(config).index + self.args_of().len() <= u32::MAX,
        ensures
            final(config).query@ == old(config).query@ + self.emits(
                old(config).field_name@,
                old(config).index as int,
                old(config).used,
            ),
            arg_views(final(config).args@) == arg_views(old(config).args@) + self.args_of(),
            final(config).index == old(config).index + self.args_of().len(),
            final(config).used == self.used_after(old(config).used),
            final(config).field_name == old(config).field_name,
    ;
}

/// Append the current placeholder index to the query, bind one argument,
/// and advance the index.
fn push_placeholder(config: &mut Config, a: ArgValue)
    requires
        old(config).index < u32::MAX,
    ensures
        final(config).query@ == old(config).query@ + spec_digits(old(config).index as int),
        arg_views(final(config).args@) == arg_views(old(config).args@).push(a@),
        final(config).index == old(config).index + 1,
        final(config).used == old(config).used,
        final(config).field_name == old(config).field_name,
{
    let s = u32_string(config.index);
    config.query.append(s.as_str());
    config.args.push(a);
    config.index = config.index + 1;
    proof {
        assert(arg_views(config.args@) =~= arg_views(old(config).args@).push(a@));
    }
}

impl Config {
    /// A fresh rendering state over the given query text and argument
    /// list, starting at placeholder index `start_index` (prepared
    /// statement placeholders count from one).
    pub fn new(query: String, args: Vec<ArgValue>, start_index: u32) -> (r: Config)
        requires
            start_index >= 1,
        ensures
            r.query == query,
            r.args == args,
            r.index == start_index,
            r.field_name@ == Seq::<char>::empty(),
            r.used == false,
    {
        Config { query, args, index: start_index, field_name: String::new(), used: false }
    }

    /// The next placeholder index.
    pub fn get_index(&self) -> (r: u32)
        ensures
            r == self.index,
    {
        self.index
    }

    /// Render one value against the current field.
    pub fn check<V: ToSql>(&mut self, value: &V)
        requires
            value.req(),
            old(self).index + value.args_of().len() <= u32::MAX,
        ensures
            final(self).query@ == old(self).query@ + value.emits(
                old(self).field_name@,
                old(self).index as int,
                old(self).used,
            ),
            arg_views(final(self).args@) == arg_views(old(self).args@) + value.args_of(),
            final(self).index == old(self).index + value.args_of().len(),
            final(self).used == value.used_after(old(self).used),
            final(self).field_name == old(self).field_name,
    {
        value.to_sql(self)
    }

    /// Render one named field: put an `AND` after whatever was already
    /// rendered, then render the value against the field name, starting
    /// from a cleared used flag.
    pub fn check_field<V: ToSql>(&mut self, field_name: &str, value: &V)
        requires
            value.req(),
            old(self).index + value.args_of().len() <= u32::MAX,
        ensures
            final(self).query@ == old(self).query@ + (if old(self).used {
                " AND "@
            } else {
                Seq::<char>::empty()
            }) + value.emits(field_name@, old(self).index as int, false),
            arg_views(final(self).args@) == arg_views(old(self).args@) + value.args_of(),
            final(self).index == old(self).index + value.args_of().len(),
            final(self).used == value.used_after(false),
            final(self).field_name == old(self).field_name,
    {
        if self.used {
            self.query.append(" AND ");
        }
        let mut fname = field_name.to_owned();
        core::mem::swap(&mut self.field_name, &mut fname);
        self.used = false;
        value.to_sql(self);
        core::mem::swap(&mut self.field_name, &mut fname);
        proof {
            assert(self.query@ =~= old(self).query@ + (if old(self).used {
                " AND "@
            } else {
                Seq::<char>::empty()
            }) + value.emits(field_name@, old(self).index as int, false));
        }
    }
}

/// Render a filter into `query` and `args`, prefixed by the neutral
/// `1=1 AND` so that what follows can always start with a condition.
/// Returns the next free placeholder index.
pub fn to_sql<T: ToSql>(filters: &T, query: &mut String, args: &mut Vec<ArgValue>, start_index: u32) -> (r: u32)
    requires
        start_index >= 1,
        filters.req(),
        start_index + filters.args_of().len() <= u32::MAX,
    ensures
        final(query)@ == old(query)@ + " 1=1 AND "@ + filters.emits(
            Seq::<char>::empty(),
            start_index as int,
            false,
        ),
        arg_views(final(args)@) == arg_views(old(args)@) + filters.args_of(),
        r == start_index + filters.args_of().len(),
{
    query.append(" 1=1 AND ");
    let mut q = String::new();
    core::mem::swap(query, &mut q);
    let mut a: Vec<ArgValue> = Vec::new();
    core::mem::swap(args, &mut a);
    let mut config = Config::new(q, a, start_index);
    config.check(filters);
    let r = config.get_index();
    core::mem::swap(query, &mut config.query);
    core::mem::swap(args, &mut config.args);
    proof {
        assert(final(query)@ =~= old(query)@ + " 1=1 AND "@ + filters.emits(
            Seq::<char>::empty(),
            start_index as int,
            false,
        ));
        assert(arg_views(final(args)@) =~= arg_views(old(args)@) + filters.args_of());
    }
    r
}

/// The operator text of a number condition, placeholder sign included.
pub open spec fn num_op(k: NumberFilterKind) -> Seq<char> {
    match k {
        NumberFilterKind::Equals(_) => "==$"@,
        NumberFilterKind::NotEquals(_) => "=!$"@,
        NumberFilterKind::GreaterThan(_) => ">$"@,
        NumberFilterKind::GreaterThanEqual(_) => ">=$"@,
        NumberFilterKind::LesserThan(_) => "<$"@,
        NumberFilterKind::LesserThanEqual(_) => "<=$"@,
    }
}

/// The bound value of a number condition.
pub open spec fn num_val(k: NumberFilterKind) -> i64 {
    match k {
        NumberFilterKind::Equals(v) => v,
        NumberFilterKind::NotEquals(v) => v,
        NumberFilterKind::GreaterThan(v) => v,
        NumberFilterKind::GreaterThanEqual(v) => v,
        NumberFilterKind::LesserThan(v) => v,
        NumberFilterKind::LesserThanEqual(v) => v,
    }
}

/// What one number condition renders.
pub open spec fn num_kind_emits(k: NumberFilterKind, field: Seq<char>, idx: int) -> Seq<char> {
    field + num_op(k) + spec_digits(idx)
}

impl ToSql for NumberFilterKind {
    open spec fn req(&self) -> bool {
        true
    }

    open spec fn emits(&self, field: Seq<char>, idx: int, used: bool) -> Seq<char> {
        num_kind_emits(*self, field, idx)
    }

    open spec fn args_of(&self) -> Seq<ArgModel> {
        seq![ArgModel::Int(num_val(*self))]
    }

    open spec fn used_after(&self, used: bool) -> bool {
        true
    }

    fn to_sql(&self, config: &mut Config) {
        config.query.append(config.field_name.as_str());
        match self {
            NumberFilterKind::Equals(v) => {
                config.query.append("==$");
                push_placeholder(config, ArgValue::Int(*v));
            },
            NumberFilterKind::NotEquals(v) => {
                config.query.append("=!$");
                push_placeholder(config, ArgValue::Int(*v));
            },
            NumberFilterKind::GreaterThan(v) => {
                config.query.append(">$");
                push_placeholder(config, ArgValue::Int(*v));
            },
            NumberFilterKind::GreaterThanEqual(v) => {
                config.query.append(">=$");
                push_placeholder(config, ArgValue::Int(*v));
            },
            NumberFilterKind::LesserThan(v) => {
                config.query.append("<$");
                push_placeholder(config, ArgValue::Int(*v));
            },
            NumberFilterKind::LesserThanEqual(v) => {
                config.query.append("<=$");
                push_placeholder(config, ArgValue::Int(*v));
            },
        }
        config.used = true;
        proof {
            assert(config.query@ =~= old(config).query@ + num_kind_emits(
                *self,
                old(config).field_name@,
                old(config).index as int,
            ));
            assert(arg_views(config.args@) =~= arg_views(old(config).args@) + seq![
                ArgModel::Int(num_val(*self)),
            ]);
        }
    }
}

/// What an ordered set of number conditions renders: each condition in
/// order, `AND` between them.
pub open spec fn num_set_emits(s: Seq<NumberFilterKind>, field: Seq<char>, idx: int) -> Seq<char>
    decreases s.len(),
{
    if s.len() == 0 {
        Seq::empty()
    } else if s.len() == 1 {
        num_kind_emits(s[0], field, idx)
    } else {
        num_kind_emits(s[0], field, idx) + " AND "@ + num_set_emits(s.skip(1), field, idx + 1)
    }
}

/// The values an ordered set of number conditions binds.
pub open spec fn num_set_args(s: Seq<NumberFilterKind>) -> Seq<ArgModel> {
    s.map_values(|k: NumberFilterKind| ArgModel::Int(num_val(k)))
}

impl ToSql for NumberFilter {
    open spec fn req(&self) -> bool {
        true
    }

    open spec fn emits(&self, field: Seq<char>, idx: int, used: bool) -> Seq<char> {
        num_set_emits(self.0@, field, idx)
    }

    open spec fn args_of(&self) -> Seq<ArgModel> {
        num_set_args(self.0@)
    }

    open spec fn used_after(&self, used: bool) -> bool {
        used || self.0@.len() > 0
    }

    fn to_sql(&self, config: &mut Config) {
        let ghost f0 = config.field_name@;
        let ghost q0 = config.query@;
        let ghost a0 = arg_views(config.args@);
        let ghost idx0 = config.index;
        let ghost u0 = config.used;
        let ghost s = self.0@;
        let n = self.0.len();
        let mut i: usize = 0;
        proof {
            assert(s.skip(0) =~= s);
            assert(num_set_args(s.skip(0)) =~= num_set_args(s));
        }
        while i < n
            invariant
                0 <= i <= n,
                n == s.len(),
                s == self.0@,
                config.field_name == old(config).field_name,
                config.field_name@ == f0,
                config.index == idx0 + i,
                idx0 + n <= u32::MAX,
                q0 + num_set_emits(s, f0, idx0 as int) == config.query@ + num_set_emits(
                    s.skip(i as int),
                    f0,
                    config.index as int,
                ),
                a0 + num_set_args(s) == arg_views(config.args@) + num_set_args(s.skip(i as int)),
                config.used == (if i == 0 {
                    u0
                } else {
                    true
                }),
            decreases n - i,
        {
            let k = &self.0[i];
            proof {
                assert(s.skip(i as int)[0] == s[i as int]);
                assert(s.skip(i as int).skip(1) =~= s.skip(i + 1));
                assert(num_set_args(s.skip(i as int))[0] == ArgModel::Int(num_val(s[i as int])));
                assert(num_set_args(s.skip(i as int)).skip(1) =~= num_set_args(s.skip(i + 1)));
            }
            k.to_sql(config);
            if i + 1 != n {
                config.query.append(" AND ");
            }
            proof {
                assert(q0 + num_set_emits(s, f0, idx0 as int) =~= config.query@ + num_set_emits(
                    s.skip(i + 1),
                    f0,
                    config.index as int,
                ));
                assert(a0 + num_set_args(s) =~= arg_views(config.args@) + num_set_args(
                    s.skip(i + 1),
                ));
            }
            i += 1;
        }
        proof {
            assert(s.skip(n as int) =~= Seq::<NumberFilterKind>::empty());
            assert(config.query@ =~= q0 + num_set_emits(s, f0, idx0 as int));
            assert(arg_views(config.args@) =~= a0 + num_set_args(s));
            assert(num_set_args(s).len() == s.len());
        }
    }
}

/// The operator text of a text condition, placeholder sign included.
pub open spec fn str_op(k: StringFilterKindModel) -> Seq<char> {
    match k {
        StringFilterKindModel::Contains(_) => " LIKE $"@,
        StringFilterKindModel::NotContains(_) => " NOT LIKE $"@,
        StringFilterKindModel::StartsWith(_) => " LIKE $"@,
        StringFilterKindModel::EndsWith(_) => " LIKE $"@,
    }
}

/// The pattern a text condition binds: the value wrapped in wildcards as
/// the condition requires.
pub open spec fn str_pattern(k: StringFilterKindModel) -> Seq<char> {
    match k {
        StringFilterKindModel::Contains(s) => "%"@ + s + "%"@,
        StringFilterKindModel::NotContains(s) => "%"@ + s + "%"@,
        StringFilterKindModel::StartsWith(s) => s + "%"@,
        StringFilterKindModel::EndsWith(s) => "%"@ + s,
    }
}

/// What one text condition renders.
pub open spec fn str_kind_emits(k: StringFilterKindModel, field: Seq<char>, idx: int) -> Seq<
    char,
> {
    field + str_op(k) + spec_digits(idx)
}

impl ToSql for StringFilterKind {
    open spec fn req(&self) -> bool {
        true
    }

    open spec fn emits(&self, field: Seq<char>, idx: int, used: bool) -> Seq<char> {
        str_kind_emits(self@, field, idx)
    }

    open spec fn args_of(&self) -> Seq<ArgModel> {
        seq![ArgModel::Text(str_pattern(self@))]
    }

    open spec fn used_after(&self, used: bool) -> bool {
        true
    }

    fn to_sql(&self, config: &mut Config) {
        config.query.append(config.field_name.as_str());
        match self {
            StringFilterKind::Contains(v) => {
                config.query.append(" LIKE $");
                let mut p = String::from_str("%");
                p.append(v.as_str());
                p.append("%");
                proof {
                    assert(p@ =~= str_pattern(self@));
                }
                push_placeholder(config, ArgValue::Text(p));
            },
            StringFilterKind::NotContains(v) => {
                config.query.append(" NOT LIKE $");
                let mut p = String::from_str("%");
                p.append(v.as_str());
                p.append("%");
                proof {
                    assert(p@ =~= str_pattern(self@));
                }
                push_placeholder(config, ArgValue::Text(p));
            },
            StringFilterKind::StartsWith(v) => {
                config.query.append(" LIKE $");
                let mut p = String::from_str(v.as_str());
                p.append("%");
                proof {
                    assert(p@ =~= str_pattern(self@));
                }
                push_placeholder(config, ArgValue::Text(p));
            },
            StringFilterKind::EndsWith(v) => {
                config.query.append(" LIKE $");
                let mut p = String::from_str("%");
                p.append(v.as_str());
                proof {
                    assert(p@ =~= str_pattern(self@));
                }
                push_placeholder(config, ArgValue::Text(p));
            },
        }
        config.used = true;
        proof {
            assert(config.query@ =~= old(config).query@ + str_kind_emits(
                self@,
                old(config).field_name@,
                old(config).index as int,
            ));
            assert(arg_views(config.args@) =~= arg_views(old(config).args@) + seq![
                ArgModel::Text(str_pattern(self@)),
            ]);
        }
    }
}

/// What an ordered set of text conditions renders.
pub open spec fn str_set_emits(s: Seq<StringFilterKindModel>, field: Seq<char>, idx: int) -> Seq<
    char,
>
    decreases s.len(),
{
    if s.len() == 0 {
        Seq::empty()
    } else if s.len() == 1 {
        str_kind_emits(s[0], field, idx)
    } else {
        str_kind_emits(s[0], field, idx) + " AND "@ + str_set_emits(s.skip(1), field, idx + 1)
    }
}

/// The values an ordered set of text conditions binds.
pub open spec fn str_set_args(s: Seq<StringFilterKindModel>) -> Seq<ArgModel> {
    s.map_values(|k: StringFilterKindModel| ArgModel::Text(str_pattern(k)))
}

impl ToSql for StringFilter {
    open spec fn req(&self) -> bool {
        true
    }

    open spec fn emits(&self, field: Seq<char>, idx: int, used: bool) -> Seq<char> {
        str_set_emits(self.models(), field, idx)
    }

    open spec fn args_of(&self) -> Seq<ArgModel> {
        str_set_args(self.models())
    }

    open spec fn used_after(&self, used: bool) -> bool {
        used || self.0@.len() > 0
    }

    fn to_sql(&self, config: &mut Config) {
        let ghost f0 = config.field_name@;
        let ghost q0 = config.query@;
        let ghost a0 = arg_views(config.args@);
        let ghost idx0 = config.index;
        let ghost u0 = config.used;
        let ghost s = self.models();
        let n = self.0.len();
        let mut i: usize = 0;
        proof {
            assert(s.skip(0) =~= s);
            assert(str_set_args(s.skip(0)) =~= str_set_args(s));
        }
        while i < n
            invariant
                0 <= i <= n,
                n == s.len(),
                s == self.models(),
                config.field_name == old(config).field_name,
                config.field_name@ == f0,
                config.index == idx0 + i,
                idx0 + n <= u32::MAX,
                q0 + str_set_emits(s, f0, idx0 as int) == config.query@ + str_set_emits(
                    s.skip(i as int),
                    f0,
                    config.index as int,
                ),
                a0 + str_set_args(s) == arg_views(config.args@) + str_set_args(s.skip(i as int)),
                config.used == (if i == 0 {
                    u0
                } else {
                    true
                }),
            decreases n - i,
        {
            let k = &self.0[i];
            proof {
                assert(k@ == s[i as int]);
                assert(s.skip(i as int)[0] == s[i as int]);
                assert(s.skip(i as int).skip(1) =~= s.skip(i + 1));
                assert(str_set_args(s.skip(i as int))[0] == ArgModel::Text(
                    str_pattern(s[i as int]),
                ));
                assert(str_set_args(s.skip(i as int)).skip(1) =~= str_set_args(s.skip(i + 1)));
            }
            k.to_sql(config);
            if i + 1 != n {
                config.query.append(" AND ");
            }
            proof {
                assert(q0 + str_set_emits(s, f0, idx0 as int) =~= config.query@ + str_set_emits(
                    s.skip(i + 1),
                    f0,
                    config.index as int,
                ));
                assert(a0 + str_set_args(s) =~= arg_views(config.args@) + str_set_args(
                    s.skip(i + 1),
                ));
            }
            i += 1;
        }
        proof {
            assert(s.skip(n as int) =~= Seq::<StringFilterKindModel>::empty());
            assert(config.query@ =~= q0 + str_set_emits(s, f0, idx0 as int));
            assert(arg_views(config.args@) =~= a0 + str_set_args(s));
            assert(str_set_args(s).len() == s.len());
        }
    }
}

/// The operator text of a date condition, placeholder sign included.
pub open spec fn date_op(k: DateFilterKind) -> Seq<char> {
    match k {
        DateFilterKind::Equals(_) => "==$"@,
        DateFilterKind::NotEquals(_) => "=!$"@,
        DateFilterKind::Before(_) => "<$"@,
        DateFilterKind::After(_) => ">$"@,
    }
}

/// The bound value of a date condition.
pub open spec fn date_val(k: DateFilterKind) -> Date {
    match k {
        DateFilterKind::Equals(d) => d,
        DateFilterKind::NotEquals(d) => d,
        DateFilterKind::Before(d) => d,
        DateFilterKind::After(d) => d,
    }
}

/// What one date condition renders.
pub open spec fn date_kind_emits(k: DateFilterKind, field: Seq<char>, idx: int) -> Seq<char> {
    field + date_op(k) + spec_digits(idx)
}

impl ToSql for DateFilterKind {
    open spec fn req(&self) -> bool {
        true
    }

    open spec fn emits(&self, field: Seq<char>, idx: int, used: bool) -> Seq<char> {
        date_kind_emits(*self, field, idx)
    }

    open spec fn args_of(&self) -> Seq<ArgModel> {
        seq![ArgModel::Day(date_val(*self))]
    }

    open spec fn used_after(&self, used: bool) -> bool {
        true
    }

    fn to_sql(&self, config: &mut Config) {
        config.query.append(config.field_name.as_str());
        match self {
            DateFilterKind::Equals(d) => {
                config.query.append("==$");
                push_placeholder(config, ArgValue::Day(*d));
            },
            DateFilterKind::NotEquals(d) => {
                config.query.append("=!$");
                push_placeholder(config, ArgValue::Day(*d));
            },
            DateFilterKind::Before(d) => {
                config.query.append("<$");
                push_placeholder(config, ArgValue::Day(*d));
            },
            DateFilterKind::After(d) => {
                config.query.append(">$");
                push_placeholder(config, ArgValue::Day(*d));
            },
        }
        config.used = true;
        proof {
            assert(config.query@ =~= old(config).query@ + date_kind_emits(
                *self,
                old(config).field_name@,
                old(config).index as int,
            ));
            assert(arg_views(config.args@) =~= arg_views(old(config).args@) + seq![
                ArgModel::Day(date_val(*self)),
            ]);
        }
    }
}

/// What an ordered set of date conditions renders.
pub open spec fn date_set_emits(s: Seq<DateFilterKind>, field: Seq<char>, idx: int) -> Seq<char>
    decreases s.len(),
{
    if s.len() == 0 {
        Seq::empty()
    } else if s.len() == 1 {
        date_kind_emits(s[0], field, idx)
    } else {
        date_kind_emits(s[0], field, idx) + " AND "@ + date_set_emits(s.skip(1), field, idx + 1)
    }
}

/// The values an ordered set of date conditions binds.
pub open spec fn date_set_args(s: Seq<DateFilterKind>) -> Seq<ArgModel> {
    s.map_values(|k: DateFilterKind| ArgModel::Day(date_val(k)))
}

impl ToSql for DateFilter {
    open spec fn req(&self) -> bool {
        true
    }

    open spec fn emits(&self, field: Seq<char>, idx: int, used: bool) -> Seq<char> {
        date_set_emits(self.0@, field, idx)
    }

    open spec fn args_of(&self) -> Seq<ArgModel> {
        date_set_args(self.0@)
    }

    open spec fn used_after(&self, used: bool) -> bool {
        used || self.0@.len() > 0
    }

    fn to_sql(&self, config: &mut Config) {
        let ghost f0 = config.field_name@;
        let ghost q0 = config.query@;
        let ghost a0 = arg_views(config.args@);
        let ghost idx0 = config.index;
        let ghost u0 = config.used;
        let ghost s = self.0@;
        let n = self.0.len();
        let mut i: usize = 0;
        proof {
            assert(s.skip(0) =~= s);
            assert(date_set_args(s.skip(0)) =~= date_set_args(s));
        }
        while i < n
            invariant
                0 <= i <= n,
                n == s.len(),
                s == self.0@,
                config.field_name == old(config).field_name,
                config.field_name@ == f0,
                config.index == idx0 + i,
                idx0 + n <= u32::MAX,
                q0 + date_set_emits(s, f0, idx0 as int) == config.query@ + date_set_emits(
                    s.skip(i as int),
                    f0,
                    config.index as int,
                ),
                a0 + date_set_args(s) == arg_views(config.args@) + date_set_args(s.skip(i as int)),
                config.used == (if i == 0 {
                    u0
                } else {
                    true
                }),
            decreases n - i,
        {
            let k = &self.0[i];
            proof {
                assert(s.skip(i as int)[0] == s[i as int]);
                assert(s.skip(i as int).skip(1) =~= s.skip(i + 1));
                assert(date_set_args(s.skip(i as int))[0] == ArgModel::Day(date_val(s[i as int])));
                assert(date_set_args(s.skip(i as int)).skip(1) =~= date_set_args(s.skip(i + 1)));
            }
            k.to_sql(config);
            if i + 1 != n {
                config.query.append(" AND ");
            }
            proof {
                assert(q0 + date_set_emits(s, f0, idx0 as int) =~= config.query@ + date_set_emits(
                    s.skip(i + 1),
                    f0,
                    config.index as int,
                ));
                assert(a0 + date_set_args(s) =~= arg_views(config.args@) + date_set_args(
                    s.skip(i + 1),
                ));
            }
            i += 1;
        }
        proof {
            assert(s.skip(n as int) =~= Seq::<DateFilterKind>::empty());
            assert(config.query@ =~= q0 + date_set_emits(s, f0, idx0 as int));
            assert(arg_views(config.args@) =~= a0 + date_set_args(s));
            assert(date_set_args(s).len() == s.len());
        }
    }
}

/// The operator text of a timestamp condition, placeholder sign included.
pub open spec fn dt_op(k: DateTimeFilterKind) -> Seq<char> {
    match k {
        DateTimeFilterKind::Equals(_) => "==$"@,
        DateTimeFilterKind::NotEquals(_) => "=!$"@,
        DateTimeFilterKind::Before(_) => "<$"@,
        DateTimeFilterKind::After(_) => ">$"@,
    }
}

/// The bound value of a timestamp condition.
pub open spec fn dt_val(k: DateTimeFilterKind) -> DateTime {
    match k {
        DateTimeFilterKind::Equals(d) => d,
        DateTimeFilterKind::NotEquals(d) => d,
        DateTimeFilterKind::Before(d) => d,
        DateTimeFilterKind::After(d) => d,
    }
}

/// What one timestamp condition renders.
pub open spec fn dt_kind_emits(k: DateTimeFilterKind, field: Seq<char>, idx: int) -> Seq<char> {
    field + dt_op(k) + spec_digits(idx)
}

impl ToSql for DateTimeFilterKind {
    open spec fn req(&self) -> bool {
        true
    }

    open spec fn emits(&self, field: Seq<char>, idx: int, used: bool) -> Seq<char> {
        dt_kind_emits(*self, field, idx)
    }

    open spec fn args_of(&self) -> Seq<ArgModel> {
        seq![ArgModel::Stamp(dt_val(*self))]
    }

    open spec fn used_after(&self, used: bool) -> bool {
        true
    }

    fn to_sql(&self, config: &mut Config) {
        config.query.append(config.field_name.as_str());
        match self {
            DateTimeFilterKind::Equals(d) => {
                config.query.append("==$");
                push_placeholder(config, ArgValue::Stamp(*d));
            },
            DateTimeFilterKind::NotEquals(d) => {
                config.query.append("=!$");
                push_placeholder(config, ArgValue::Stamp(*d));
            },
            DateTimeFilterKind::Before(d) => {
                config.query.append("<$");
                push_placeholder(config, ArgValue::Stamp(*d));
            },
            DateTimeFilterKind::After(d) => {
                config.query.append(">$");
                push_placeholder(config, ArgValue::Stamp(*d));
            },
        }
        config.used = true;
        proof {
            assert(config.query@ =~= old(config).query@ + dt_kind_emits(
                *self,
                old(config).field_name@,
                old(config).index as int,
            ));
            assert(arg_views(config.args@) =~= arg_views(old(config).args@) + seq![
                ArgModel::Stamp(dt_val(*self)),
            ]);
        }
    }
}

/// What an ordered set of timestamp conditions renders.
pub open spec fn dt_set_emits(s: Seq<DateTimeFilterKind>, field: Seq<char>, idx: int) -> Seq<char>
    decreases s.len(),
{
    if s.len() == 0 {
        Seq::empty()
    } else if s.len() == 1 {
        dt_kind_emits(s[0], field, idx)
    } else {
        dt_kind_emits(s[0], field, idx) + " AND "@ + dt_set_emits(s.skip(1), field, idx + 1)
    }
}

/// The values an ordered set of timestamp conditions binds.
pub open spec fn dt_set_args(s: Seq<DateTimeFilterKind>) -> Seq<ArgModel> {
    s.map_values(|k: DateTimeFilterKind| ArgModel::Stamp(dt_val(k)))
}

impl ToSql for DateTimeFilter {
    open spec fn req(&self) -> bool {
        true
    }

    open spec fn emits(&self, field: Seq<char>, idx: int, used: bool) -> Seq<char> {
        dt_set_emits(self.0@, field, idx)
    }

    open spec fn args_of(&self) -> Seq<ArgModel> {
        dt_set_args(self.0@)
    }

    open spec fn used_after(&self, used: bool) -> bool {
        used || self.0@.len() > 0
    }

    fn to_sql(&self, config: &mut Config) {
        let ghost f0 = config.field_name@;
        let ghost q0 = config.query@;
        let ghost a0 = arg_views(config.args@);
        let ghost idx0 = config.index;
        let ghost u0 = config.used;
        let ghost s = self.0@;
        let n = self.0.len();
        let mut i: usize = 0;
        proof {
            assert(s.skip(0) =~= s);
            assert(dt_set_args(s.skip(0)) =~= dt_set_args(s));
        }
        while i < n
            invariant
                0 <= i <= n,
                n == s.len(),
                s == self.0@,
                config.field_name == old(config).field_name,
                config.field_name@ == f0,
                config.index == idx0 + i,
                idx0 + n <= u32::MAX,
                q0 + dt_set_emits(s, f0, idx0 as int) == config.query@ + dt_set_emits(
                    s.skip(i as int),
                    f0,
                    config.index as int,
                ),
                a0 + dt_set_args(s) == arg_views(config.args@) + dt_set_args(s.skip(i as int)),
                config.used == (if i == 0 {
                    u0
                } else {
                    true
                }),
            decreases n - i,
        {
            let k = &self.0[i];
            proof {
                assert(s.skip(i as int)[0] == s[i as int]);
                assert(s.skip(i as int).skip(1) =~= s.skip(i + 1));
                assert(dt_set_args(s.skip(i as int))[0] == ArgModel::Stamp(dt_val(s[i as int])));
                assert(dt_set_args(s.skip(i as int)).skip(1) =~= dt_set_args(s.skip(i + 1)));
            }
            k.to_sql(config);
            if i + 1 != n {
                config.query.append(" AND ");
            }
            proof {
                assert(q0 + dt_set_emits(s, f0, idx0 as int) =~= config.query@ + dt_set_emits(
                    s.skip(i + 1),
                    f0,
                    config.index as int,
                ));
                assert(a0 + dt_set_args(s) =~= arg_views(config.args@) + dt_set_args(
                    s.skip(i + 1),
                ));
            }
            i += 1;
        }
        proof {
            assert(s.skip(n as int) =~= Seq::<DateTimeFilterKind>::empty());
            assert(config.query@ =~= q0 + dt_set_emits(s, f0, idx0 as int));
            assert(arg_views(config.args@) =~= a0 + dt_set_args(s));
            assert(dt_set_args(s).len() == s.len());
        }
    }
}

/// What the members of an `IN` list render: a placeholder per
/// identifier, commas in between.
pub open spec fn uuid_in_emits(vals: Seq<Uuid>, idx: int) -> Seq<char>
    decreases vals.len(),
{
    if vals.len() == 0 {
        Seq::empty()
    } else {
        "$"@ + spec_digits(idx) + (if vals.len() > 1 {
            ","@
        } else {
            Seq::empty()
        }) + uuid_in_emits(vals.skip(1), idx + 1)
    }
}

/// What one identifier condition renders.
pub open spec fn uuid_kind_emits(k: UuidFilterKindModel, field: Seq<char>, idx: int) -> Seq<
    char,
> {
    match k {
        UuidFilterKindModel::Equals(_) => field + "= $"@ + spec_digits(idx),
        UuidFilterKindModel::In(vals) => field + " IN ("@ + uuid_in_emits(vals, idx) + ")"@,
    }
}

/// The values one identifier condition binds.
pub open spec fn uuid_kind_args(k: UuidFilterKindModel) -> Seq<ArgModel> {
    match k {
        UuidFilterKindModel::Equals(u) => seq![ArgModel::Id(u)],
        UuidFilterKindModel::In(vals) => vals.map_values(|u: Uuid| ArgModel::Id(u)),
    }
}

impl ToSql for UuidFilterKind {
    open spec fn req(&self) -> bool {
        true
    }

    open spec fn emits(&self, field: Seq<char>, idx: int, used: bool) -> Seq<char> {
        uuid_kind_emits(self@, field, idx)
    }

    open spec fn args_of(&self) -> Seq<ArgModel> {
        uuid_kind_args(self@)
    }

    open spec fn used_after(&self, used: bool) -> bool {
        true
    }

    fn to_sql(&self, config: &mut Config) {
        config.query.append(config.field_name.as_str());
        match self {
            UuidFilterKind::Equals(u) => {
                config.query.append("= $");
                push_placeholder(config, ArgValue::Id(*u));
            },
            UuidFilterKind::In(vals) => {
                config.query.append(" IN (");
                let ghost q0 = config.query@;
                let ghost a0 = arg_views(config.args@);
                let ghost idx0 = config.index;
                let ghost vs = vals@;
                let m = vals.len();
                let mut t: usize = 0;
                proof {
                    assert(vs.skip(0) =~= vs);
                    assert(vs.skip(0).map_values(|u: Uuid| ArgModel::Id(u)) =~= uuid_kind_args(
                        self@,
                    ));
                }
                while t < m
                    invariant
                        0 <= t <= m,
                        m == vs.len(),
                        vs == vals@,
                        config.field_name == old(config).field_name,
                        config.index == idx0 + t,
                        idx0 + m <= u32::MAX,
                        config.used == old(config).used,
                        q0 + uuid_in_emits(vs, idx0 as int) == config.query@ + uuid_in_emits(
                            vs.skip(t as int),
                            config.index as int,
                        ),
                        a0 + vs.map_values(|u: Uuid| ArgModel::Id(u)) == arg_views(config.args@)
                            + vs.skip(t as int).map_values(|u: Uuid| ArgModel::Id(u)),
                    decreases m - t,
                {
                    proof {
                        assert(vs.skip(t as int)[0] == vs[t as int]);
                        assert(vs.skip(t as int).skip(1) =~= vs.skip(t + 1));
                        assert(vs.skip(t as int).map_values(|u: Uuid| ArgModel::Id(u))[0]
                            == ArgModel::Id(vs[t as int]));
                        assert(vs.skip(t as int).map_values(|u: Uuid| ArgModel::Id(u)).skip(1)
                            =~= vs.skip(t + 1).map_values(|u: Uuid| ArgModel::Id(u)));
                    }
                    config.query.append("$");
                    push_placeholder(config, ArgValue::Id(vals[t]));
                    if t + 1 < m {
                        config.query.append(",");
                    }
                    proof {
                        assert(q0 + uuid_in_emits(vs, idx0 as int) =~= config.query@
                            + uuid_in_emits(vs.skip(t + 1), config.index as int));
                        assert(a0 + vs.map_values(|u: Uuid| ArgModel::Id(u)) =~= arg_views(
                            config.args@,
                        ) + vs.skip(t + 1).map_values(|u: Uuid| ArgModel::Id(u)));
                    }
                    t += 1;
                }
                proof {
                    assert(vs.skip(m as int) =~= Seq::<Uuid>::empty());
                    assert(vs.skip(m as int).map_values(|u: Uuid| ArgModel::Id(u)) =~= Seq::<
                        ArgModel,
                    >::empty());
                    assert(config.query@ =~= q0 + uuid_in_emits(vs, idx0 as int));
                    assert(arg_views(config.args@) =~= a0 + vs.map_values(
                        |u: Uuid| ArgModel::Id(u),
                    ));
                }
                config.query.append(")");
            },
        }
        config.used = true;
        proof {
            assert(config.query@ =~= old(config).query@ + uuid_kind_emits(
                self@,
                old(config).field_name@,
                old(config).index as int,
            ));
            assert(arg_views(config.args@) =~= arg_views(old(config).args@) + uuid_kind_args(
                self@,
            ));
        }
    }
}

/// What an ordered set of identifier conditions renders; each condition
/// advances the placeholder index by the number of values it binds.
pub open spec fn uuid_set_emits(s: Seq<UuidFilterKindModel>, field: Seq<char>, idx: int) -> Seq<
    char,
>
    decreases s.len(),
{
    if s.len() == 0 {
        Seq::empty()
    } else if s.len() == 1 {
        uuid_kind_emits(s[0], field, idx)
    } else {
        uuid_kind_emits(s[0], field, idx) + " AND "@ + uuid_set_emits(
            s.skip(1),
            field,
            idx + uuid_kind_args(s[0]).len(),
        )
    }
}

/// The values an ordered set of identifier conditions binds.
pub open spec fn uuid_set_args(s: Seq<UuidFilterKindModel>) -> Seq<ArgModel>
    decreases s.len(),
{
    if s.len() == 0 {
        Seq::empty()
    } else {
        uuid_kind_args(s[0]) + uuid_set_args(s.skip(1))
    }
}

impl ToSql for UuidFilter {
    open spec fn req(&self) -> bool {
        true
    }

    open spec fn emits(&self, field: Seq<char>, idx: int, used: bool) -> Seq<char> {
        uuid_set_emits(self.models(), field, idx)
    }

    open spec fn args_of(&self) -> Seq<ArgModel> {
        uuid_set_args(self.models())
    }

    open spec fn used_after(&self, used: bool) -> bool {
        used || self.0@.len() > 0
    }

    fn to_sql(&self, config: &mut Config) {
        let ghost f0 = config.field_name@;
        let ghost q0 = config.query@;
        let ghost a0 = arg_views(config.args@);
        let ghost idx0 = config.index;
        let ghost u0 = config.used;
        let ghost s = self.models();
        let n = self.0.len();
        let mut i: usize = 0;
        proof {
            assert(s.skip(0) =~= s);
            assert(uuid_set_args(s.skip(0)) =~= uuid_set_args(s));
        }
        while i < n
            invariant
                0 <= i <= n,
                n == s.len(),
                s == self.models(),
                config.field_name == old(config).field_name,
                config.field_name@ == f0,
                config.index + uuid_set_args(s.skip(i as int)).len() == idx0 + uuid_set_args(
                    s,
                ).len(),
                idx0 + uuid_set_args(s).len() <= u32::MAX,
                q0 + uuid_set_emits(s, f0, idx0 as int) == config.query@ + uuid_set_emits(
                    s.skip(i as int),
                    f0,
                    config.index as int,
                ),
                a0 + uuid_set_args(s) == arg_views(config.args@) + uuid_set_args(s.skip(i as int)),
                config.used == (if i == 0 {
                    u0
                } else {
                    true
                }),
            decreases n - i,
        {
            let k = &self.0[i];
            proof {
                assert(k@ == s[i as int]);
                assert(s.skip(i as int)[0] == s[i as int]);
                assert(s.skip(i as int).skip(1) =~= s.skip(i + 1));
                assert(uuid_set_args(s.skip(i as int)) == uuid_kind_args(s[i as int])
                    + uuid_set_args(s.skip(i + 1)));
                assert(uuid_set_args(s.skip(i as int)).len() == uuid_kind_args(s[i as int]).len()
                    + uuid_set_args(s.skip(i + 1)).len());
            }
            k.to_sql(config);
            if i + 1 != n {
                config.query.append(" AND ");
            }
            proof {
                assert(q0 + uuid_set_emits(s, f0, idx0 as int) =~= config.query@ + uuid_set_emits(
                    s.skip(i + 1),
                    f0,
                    config.index as int,
                ));
                assert(a0 + uuid_set_args(s) =~= arg_views(config.args@) + uuid_set_args(
                    s.skip(i + 1),
                ));
            }
            i += 1;
        }
        proof {
            assert(s.skip(n as int) =~= Seq::<UuidFilterKindModel>::empty());
            assert(config.query@ =~= q0 + uuid_set_emits(s, f0, idx0 as int));
            assert(arg_views(config.args@) =~= a0 + uuid_set_args(s));
        }
    }
}

/// A missing filter renders nothing.
impl<T: ToSql> ToSql for Option<T> {
    open spec fn req(&self) -> bool {
        match self {
            Some(v) => v.req(),
            None => true,
        }
    }

    open spec fn emits(&self, field: Seq<char>, idx: int, used: bool) -> Seq<char> {
        match self {
            Some(v) => v.emits(field, idx, used),
            None => Seq::empty(),
        }
    }

    open spec fn args_of(&self) -> Seq<ArgModel> {
        match self {
            Some(v) => v.args_of(),
            None => Seq::empty(),
        }
    }

    open spec fn used_after(&self, used: bool) -> bool {
        match self {
            Some(v) => v.used_after(used),
            None => used,
        }
    }

    fn to_sql(&self, config: &mut Config) {
        match self {
            Some(v) => v.to_sql(config),
            None => {
                proof {
                    assert(config.query@ =~= old(config).query@ + Seq::<char>::empty());
                    assert(arg_views(config.args@) =~= arg_views(old(config).args@) + Seq::<
                        ArgModel,
                    >::empty());
                }
            },
        }
    }
}

/// The direction keyword a query renders; unordered renders ascending.
pub open spec fn order_text(o: Order) -> Seq<char> {
    if o == Order::Desc {
        "DESC"@
    } else {
        "ASC"@
    }
}

/// The ordering and paging tail of a query: the optional `ORDER BY`
/// clause, then the `OFFSET` and `LIMIT` placeholders.
pub open spec fn qf_tail_emits<T: Filter>(q: QueryFilter<T>, idx: int) -> Seq<char> {
    (match q.spec_sort() {
        Some(f) => " ORDER BY "@ + f + " "@ + order_text(q.spec_order()),
        None => Seq::empty(),
    }) + " OFFSET $"@ + spec_digits(idx) + " LIMIT $"@ + spec_digits(idx + 1)
}

/// A whole query: the field filter, then the validated sort and the
/// paging window, which binds the offset and the limit as the two final
/// arguments.
impl<T: Filter + ToSql> ToSql for QueryFilter<T> {
    open spec fn req(&self) -> bool {
        self.window_wf() && self.filter.req()
    }

    open spec fn emits(&self, field: Seq<char>, idx: int, used: bool) -> Seq<char> {
        self.filter.emits(field, idx, used) + qf_tail_emits(
            *self,
            idx + self.filter.args_of().len(),
        )
    }

    open spec fn args_of(&self) -> Seq<ArgModel> {
        self.filter.args_of() + seq![
            ArgModel::UInt(self.spec_offset()),
            ArgModel::UInt(self.spec_limit(self.spec_offset()) as u32),
        ]
    }

    open spec fn used_after(&self, used: bool) -> bool {
        true
    }

    fn to_sql(&self, config: &mut Config) {
        self.filter.to_sql(config);
        let offset = self.get_offset();
        let limit = self.get_limit(offset);
        let order = self.get_order();
        let sort = self.get_sort();
        if let Some(field) = sort {
            config.query.append(" ORDER BY ");
            config.query.append(field);
            config.query.append(" ");
            config.query.append(order.as_str());
        }
        config.query.append(" OFFSET $");
        push_placeholder(config, ArgValue::UInt(offset));
        config.query.append(" LIMIT $");
        push_placeholder(config, ArgValue::UInt(limit));
        config.used = true;
        proof {
            assert(limit == self.spec_limit(self.spec_offset()) as u32);
            assert(config.query@ =~= old(config).query@ + self.emits(
                old(config).field_name@,
                old(config).index as int,
                old(config).used,
            ));
            assert(arg_views(config.args@) =~= arg_views(old(config).args@) + self.args_of());
        }
    }
}

/// The user filter renders its two named fields in order, `AND` between
/// them when the first rendered anything.
impl ToSql for UserFilter {
    open spec fn req(&self) -> bool {
        true
    }

    open spec fn emits(&self, field: Seq<char>, idx: int, used: bool) -> Seq<char> {
        (if used {
            " AND "@
        } else {
            Seq::empty()
        }) + self.username.emits("username"@, idx, false) + (if self.username.used_after(false) {
            " AND "@
        } else {
            Seq::empty()
        }) + self.age.emits("age"@, idx + self.username.args_of().len(), false)
    }

    open spec fn args_of(&self) -> Seq<ArgModel> {
        self.username.args_of() + self.age.args_of()
    }

    open spec fn used_after(&self, used: bool) -> bool {
        self.age.used_after(false)
    }

    fn to_sql(&self, config: &mut Config) {
        config.check_field("username", &self.username);
        config.check_field("age", &self.age);
        proof {
            assert(config.query@ =~= old(config).query@ + self.emits(
                old(config).field_name@,
                old(config).index as int,
                old(config).used,
            ));
            assert(arg_views(config.args@) =~= arg_views(old(config).args@) + self.args_of());
        }
    }
}

/// The unit filter renders nothing.
impl ToSql for () {
    open spec fn req(&self) -> bool {
        true
    }

    open spec fn emits(&self, field: Seq<char>, idx: int, used: bool) -> Seq<char> {
        Seq::empty()
    }

    open spec fn args_of(&self) -> Seq<ArgModel> {
        Seq::empty()
    }

    open spec fn used_after(&self, used: bool) -> bool {
        used
    }

    fn to_sql(&self, config: &mut Config) {
        proof {
            assert(config.query@ =~= old(config).query@ + Seq::<char>::empty());
            assert(arg_views(config.args@) =~= arg_views(old(config).args@) + Seq::<
                ArgModel,
            >::empty());
        }
    }
}

} // verus!
