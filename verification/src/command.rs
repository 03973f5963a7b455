use vstd::prelude::*;

use crate::errors::ClientError;

verus! {

/// Number of optional named parameters in the command schema.
pub const PARAM_COUNT: usize = 18;

/// One remote-procedure request for the trading terminal.
///
/// `action` is the operation name (for example `"ACCOUNT"`); every other
/// field is an optional string-typed parameter. Absence means "not
/// applicable to this action" — which fields a given action requires is the
/// remote terminal's business, not this layer's.
#[derive(Debug, Clone)]
pub struct Command {
    pub action: String,
    pub action_type: Option<String>,
    pub symbol: Option<String>,
    pub chart_tf: Option<String>,
    pub from_date: Option<String>,
    pub to_date: Option<String>,
    pub id: Option<String>,
    pub magic: Option<String>,
    pub volume: Option<String>,
    pub price: Option<String>,
    pub stoploss: Option<String>,
    pub takeprofit: Option<String>,
    pub expiration: Option<String>,
    pub deviation: Option<String>,
    pub comment: Option<String>,
    pub chart_id: Option<String>,
    pub indicator_chart_id: Option<String>,
    pub chart_indicator_sub_window: Option<String>,
    pub style: Option<String>,
}

/// The optional parameter of `c` at schema position `i`, as a sequence of
/// characters. Positions follow the declaration order of the fields.
pub open spec fn spec_param(c: Command, i: int) -> Option<Seq<char>> {
    if i == 0 { c.action_type.deep_view() }
    else if i == 1 { c.symbol.deep_view() }
    else if i == 2 { c.chart_tf.deep_view() }
    else if i == 3 { c.from_date.deep_view() }
    else if i == 4 { c.to_date.deep_view() }
    else if i == 5 { c.id.deep_view() }
    else if i == 6 { c.magic.deep_view() }
    else if i == 7 { c.volume.deep_view() }
    else if i == 8 { c.price.deep_view() }
    else if i == 9 { c.stoploss.deep_view() }
    else if i == 10 { c.takeprofit.deep_view() }
    else if i == 11 { c.expiration.deep_view() }
    else if i == 12 { c.deviation.deep_view() }
    else if i == 13 { c.comment.deep_view() }
    else if i == 14 { c.chart_id.deep_view() }
    else if i == 15 { c.indicator_chart_id.deep_view() }
    else if i == 16 { c.chart_indicator_sub_window.deep_view() }
    else if i == 17 { c.style.deep_view() }
    else { None }
}

/// The externally visible (wire and keyword) name of parameter `i`.
pub open spec fn key_name(i: int) -> Seq<char> {
    if i == 0 { "actionType"@ }
    else if i == 1 { "symbol"@ }
    else if i == 2 { "chartTF"@ }
    else if i == 3 { "fromDate"@ }
    else if i == 4 { "toDate"@ }
    else if i == 5 { "id"@ }
    else if i == 6 { "magic"@ }
    else if i == 7 { "volume"@ }
    else if i == 8 { "price"@ }
    else if i == 9 { "stoploss"@ }
    else if i == 10 { "takeprofit"@ }
    else if i == 11 { "expiration"@ }
    else if i == 12 { "deviation"@ }
    else if i == 13 { "comment"@ }
    else if i == 14 { "chartId"@ }
    else if i == 15 { "indicatorChartId"@ }
    else if i == 16 { "chartIndicatorSubWindow"@ }
    else if i == 17 { "style"@ }
    else { Seq::<char>::empty() }
}

/// True when every optional parameter of `c` is unset.
pub open spec fn params_all_none(c: Command) -> bool {
    forall|i: int| 0 <= i < PARAM_COUNT ==> spec_param(c, i) is None
}

/// The parameter field of `c` at schema position `i`.
pub fn get_param<'a>(c: &'a Command, i: usize) -> (r: &'a Option<String>)
    requires
        i < PARAM_COUNT,
    ensures
        r.deep_view() == spec_param(*c, i as int),
{
    match i {
        0 => &c.action_type,
        1 => &c.symbol,
        2 => &c.chart_tf,
        3 => &c.from_date,
        4 => &c.to_date,
        5 => &c.id,
        6 => &c.magic,
        7 => &c.volume,
        8 => &c.price,
        9 => &c.stoploss,
        10 => &c.takeprofit,
        11 => &c.expiration,
        12 => &c.deviation,
        13 => &c.comment,
        14 => &c.chart_id,
        15 => &c.indicator_chart_id,
        16 => &c.chart_indicator_sub_window,
        _ => &c.style,
    }
}

/// Sets the parameter at schema position `i` to `v`, leaving the action and
/// every other parameter unchanged.
pub fn set_param(c: &mut Command, i: usize, v: String)
    requires
        i < PARAM_COUNT,
    ensures
        final(c).action@ == old(c).action@,
        spec_param(*final(c), i as int) == Some::<Seq<char>>(v@),
        forall|j: int| 0 <= j < PARAM_COUNT && j != i ==> spec_param(*final(c), j) == spec_param(*old(c), j),
{
    match i {
        0 => c.action_type = Some(v),
        1 => c.symbol = Some(v),
        2 => c.chart_tf = Some(v),
        3 => c.from_date = Some(v),
        4 => c.to_date = Some(v),
        5 => c.id = Some(v),
        6 => c.magic = Some(v),
        7 => c.volume = Some(v),
        8 => c.price = Some(v),
        9 => c.stoploss = Some(v),
        10 => c.takeprofit = Some(v),
        11 => c.expiration = Some(v),
        12 => c.deviation = Some(v),
        13 => c.comment = Some(v),
        14 => c.chart_id = Some(v),
        15 => c.indicator_chart_id = Some(v),
        16 => c.chart_indicator_sub_window = Some(v),
        _ => c.style = Some(v),
    }
}

/// The keyword and wire name of parameter `i`.
pub fn param_key(i: usize) -> (r: &'static str)
    requires
        i < PARAM_COUNT,
    ensures
        r@ == key_name(i as int),
{
    match i {
        0 => "actionType",
        1 => "symbol",
        2 => "chartTF",
        3 => "fromDate",
        4 => "toDate",
        5 => "id",
        6 => "magic",
        7 => "volume",
        8 => "price",
        9 => "stoploss",
        10 => "takeprofit",
        11 => "expiration",
        12 => "deviation",
        13 => "comment",
        14 => "chartId",
        15 => "indicatorChartId",
        16 => "chartIndicatorSubWindow",
        _ => "style",
    }
}

/// The schema position of the first parameter named `k`, searching from
/// position `i` on; `None` when no parameter from `i` on carries that name.
pub open spec fn key_lookup_from(k: Seq<char>, i: int) -> Option<int>
    decreases PARAM_COUNT - i,
{
    if i < 0 || i >= PARAM_COUNT {
        None
    } else if key_name(i) == k {
        Some(i)
    } else {
        key_lookup_from(k, i + 1)
    }
}

/// The schema position of the parameter named `k`, if any.
pub open spec fn key_lookup(k: Seq<char>) -> Option<int> {
    key_lookup_from(k, 0)
}

/// Character-by-character string equality.
pub fn str_eq_str(a: &str, b: &str) -> (r: bool)
    ensures
        r == (a@ == b@),
{
    let na = a.unicode_len();
    let nb = b.unicode_len();
    if na != nb {
        return false;
    }
    let mut i: usize = 0;
    while i < na
        invariant
            i <= na,
            na == a@.len(),
            na == b@.len(),
            forall|j: int| 0 <= j < i ==> a@[j] == b@[j],
        decreases na - i,
    {
        if a.get_char(i) != b.get_char(i) {
            return false;
        }
        i += 1;
    }
    proof {
        assert(a@ =~= b@);
    }
    true
}

/// The schema position of the keyword `k`, or `None` when `k` is not a
/// parameter name of the schema.
pub fn key_index(k: &str) -> (r: Option<usize>)
    ensures
        match r {
            Some(i) => i < PARAM_COUNT && key_lookup(k@) == Some(i as int),
            None => key_lookup(k@) is None,
        },
{
    let mut i: usize = 0;
    while i < PARAM_COUNT
        invariant
            i <= PARAM_COUNT,
            key_lookup(k@) == key_lookup_from(k@, i as int),
        decreases PARAM_COUNT - i,
    {
        if str_eq_str(k, param_key(i)) {
            return Some(i);
        }
        i += 1;
    }
    None
}

impl Command {
    /// A command for `action` with every optional parameter unset.
    pub fn new(action: String) -> (r: Command)
        ensures
            r.action@ == action@,
            params_all_none(r),
    {
        Command {
            action,
            action_type: None,
            symbol: None,
            chart_tf: None,
            from_date: None,
            to_date: None,
            id: None,
            magic: None,
            volume: None,
            price: None,
            stoploss: None,
            takeprofit: None,
            expiration: None,
            deviation: None,
            comment: None,
            chart_id: None,
            indicator_chart_id: None,
            chart_indicator_sub_window: None,
            style: None,
        }
    }
}

impl Default for Command {
    /// A command with an empty action and no parameters set.
    fn default() -> (r: Command)
        ensures
            r.action@ == Seq::<char>::empty(),
            params_all_none(r),
    {
        Command::new(String::new())
    }
}

/// No two schema positions share one parameter name. Names of equal length
/// are told apart by the characters at positions 0, 1 and 5.
pub proof fn lemma_keys_distinct(i: int, j: int)
    requires
        0 <= i < PARAM_COUNT,
        0 <= j < PARAM_COUNT,
        i != j,
    ensures
        key_name(i) != key_name(j),
{
    reveal_strlit("actionType");
    reveal_strlit("symbol");
    reveal_strlit("chartTF");
    reveal_strlit("fromDate");
    reveal_strlit("toDate");
    reveal_strlit("id");
    reveal_strlit("magic");
    reveal_strlit("volume");
    reveal_strlit("price");
    reveal_strlit("stoploss");
    reveal_strlit("takeprofit");
    reveal_strlit("expiration");
    reveal_strlit("deviation");
    reveal_strlit("comment");
    reveal_strlit("chartId");
    reveal_strlit("indicatorChartId");
    reveal_strlit("chartIndicatorSubWindow");
    reveal_strlit("style");
    if key_name(i) == key_name(j) {
        assert(key_name(i).len() == key_name(j).len());
        assert(key_name(i)[0] == key_name(j)[0]);
        assert(key_name(i)[1] == key_name(j)[1]);
        assert(key_name(i)[5] == key_name(j)[5]);
        assert(false);
    }
}

/// The value the keyword list `ps` assigns to the parameter at position `i`:
/// the value of the last pair whose key names that parameter, or `None` when
/// no pair does.
pub open spec fn spec_assigned(ps: Seq<(String, String)>, i: int) -> Option<Seq<char>>
    decreases ps.len(),
{
    if ps.len() == 0 {
        None
    } else if key_lookup(ps.last().0@) == Some(i) {
        Some(ps.last().1@)
    } else {
        spec_assigned(ps.drop_last(), i)
    }
}

/// True when every key of `ps` names a parameter of the schema.
pub open spec fn all_keys_known(ps: Seq<(String, String)>) -> bool {
    forall|j: int| 0 <= j < ps.len() ==> key_lookup(ps[j].0@) is Some
}

/// Builds a command from an action name and a list of keyword arguments, as
/// the host-binding entry point does: each keyword is mapped onto its schema
/// field through the allow-list, and any keyword outside the schema is
/// rejected without further effect.
pub fn build_command(action: String, params: &Vec<(String, String)>) -> (r: Result<Command, ClientError>)
    ensures
        r is Ok <==> all_keys_known(params@),
        r is Err ==> r->Err_0 == ClientError::UnknownParameter,
        r is Ok ==> r->Ok_0.action@ == action@,
        r is Ok ==> forall|i: int| 0 <= i < PARAM_COUNT ==> spec_param(r->Ok_0, i) == spec_assigned(params@, i),
{
    let mut cmd = Command::new(action);
    let mut j: usize = 0;
    while j < params.len()
        invariant
            j <= params@.len(),
            cmd.action@ == action@,
            forall|jj: int| 0 <= jj < j ==> key_lookup(params@[jj].0@) is Some,
            forall|i: int| 0 <= i < PARAM_COUNT ==> spec_param(cmd, i) == spec_assigned(params@.take(j as int), i),
        decreases params@.len() - j,
    {
        let pair = &params[j];
        match key_index(pair.0.as_str()) {
            Some(i) => {
                set_param(&mut cmd, i, pair.1.clone());
                proof {
                    assert(params@.take(j + 1).drop_last() =~= params@.take(j as int));
                    assert(params@.take(j + 1).last() == params@[j as int]);
                }
            },
            None => {
                return Err(ClientError::UnknownParameter);
            },
        }
        j += 1;
    }
    proof {
        assert(params@.take(params@.len() as int) =~= params@);
    }
    Ok(cmd)
}

} // verus!
