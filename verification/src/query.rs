//! The query expression builder: filter, sort, pagination and search
//! directives serialized to the compact JSON strings the backend's list
//! endpoints consume.
//!
//! Every builder returns the serialized string at once: callers treat the
//! expression as an opaque token. The composite builders take
//! already-serialized sub-queries, re-parse each, and silently drop any that
//! is not valid JSON.

use crate::json::{jv_list, jv_pairs, spec_json, spec_parse_json, JsonValue, SpecValue};
use vstd::prelude::*;
use vstd::string::*;

verus! {

/// A query expression: a method tag, an optional attribute, optional values.
pub struct Query {
    /// Operator name, e.g. `equal` or `limit`.
    pub method: String,
    /// Attribute the operator is scoped to, absent for positional operators.
    pub attribute: Option<String>,
    /// Ordered operator arguments, absent for operators that take none.
    pub values: Option<Vec<JsonValue>>,
}

impl View for Query {
    type V = SpecValue;

    /// A query denotes the JSON object with `method`, then `attribute` when
    /// present, then `values` when present.
    open spec fn view(&self) -> SpecValue {
        SpecValue::Obj(
            match (self.attribute, self.values) {
                (Option::Some(a), Option::Some(vs)) => seq![
                    ("method"@, SpecValue::Str(self.method@)),
                    ("attribute"@, SpecValue::Str(a@)),
                    ("values"@, SpecValue::Arr(jv_list(vs@))),
                ],
                (Option::Some(a), Option::None) => seq![
                    ("method"@, SpecValue::Str(self.method@)),
                    ("attribute"@, SpecValue::Str(a@)),
                ],
                (Option::None, Option::Some(vs)) => seq![
                    ("method"@, SpecValue::Str(self.method@)),
                    ("values"@, SpecValue::Arr(jv_list(vs@))),
                ],
                (Option::None, Option::None) => seq![("method"@, SpecValue::Str(self.method@))],
            },
        )
    }
}

/// The views of a list of serialized query strings.
pub open spec fn views_of(qs: Seq<String>) -> Seq<Seq<char>> {
    qs.map_values(|s: String| s@)
}

/// The sub-queries that parse as JSON, in order; the rest are dropped.
pub open spec fn parsed_list(qs: Seq<Seq<char>>) -> Seq<SpecValue>
    decreases qs.len(),
{
    if qs.len() == 0 {
        Seq::empty()
    } else {
        let rest = parsed_list(qs.subrange(1, qs.len() as int));
        match spec_parse_json(qs[0]) {
            Option::Some(v) => seq![v] + rest,
            Option::None => rest,
        }
    }
}

/// `parsed_list` of a list grown by one string.
proof fn lemma_parsed_list_snoc(qs: Seq<Seq<char>>, x: Seq<char>)
    ensures
        parsed_list(qs.push(x)) == parsed_list(qs) + (match spec_parse_json(x) {
            Option::Some(v) => seq![v],
            Option::None => Seq::<SpecValue>::empty(),
        }),
    decreases qs.len(),
{
    if qs.len() == 0 {
        let t = qs.push(x);
        assert(t.subrange(1, 1) =~= Seq::<Seq<char>>::empty());
        assert(t[0] == x);
        assert(parsed_list(Seq::<Seq<char>>::empty()) == Seq::<SpecValue>::empty());
        match spec_parse_json(x) {
            Option::Some(v) => {
                assert(parsed_list(qs.push(x)) =~= seq![v]);
                assert(parsed_list(qs) + seq![v] =~= seq![v]);
            },
            Option::None => {
                assert(parsed_list(qs.push(x)) =~= Seq::<SpecValue>::empty());
                assert(parsed_list(qs) + Seq::<SpecValue>::empty() =~= Seq::<
                    SpecValue,
                >::empty());
            },
        }
    } else {
        assert(qs.push(x).subrange(1, qs.len() as int + 1) =~= qs.subrange(
            1,
            qs.len() as int,
        ).push(x));
        lemma_parsed_list_snoc(qs.subrange(1, qs.len() as int), x);
        match spec_parse_json(x) {
            Option::Some(v) => {
                assert(parsed_list(qs.push(x)) =~= parsed_list(qs) + seq![v]);
            },
            Option::None => {
                assert(parsed_list(qs.push(x)) =~= parsed_list(qs));
                assert(parsed_list(qs) + Seq::<SpecValue>::empty() =~= parsed_list(qs));
            },
        }
    }
}

/// Serialized query with an attribute and a list of values.
pub open spec fn spec_attr_query(
    method: Seq<char>,
    attribute: Seq<char>,
    values: Seq<SpecValue>,
) -> Seq<char> {
    spec_json(
        SpecValue::Obj(
            seq![
                ("method"@, SpecValue::Str(method)),
                ("attribute"@, SpecValue::Str(attribute)),
                ("values"@, SpecValue::Arr(values)),
            ],
        ),
    )
}

/// Serialized query with an attribute and no values.
pub open spec fn spec_attr_only_query(method: Seq<char>, attribute: Seq<char>) -> Seq<char> {
    spec_json(
        SpecValue::Obj(
            seq![("method"@, SpecValue::Str(method)), ("attribute"@, SpecValue::Str(attribute))],
        ),
    )
}

/// Serialized query with values and no attribute.
pub open spec fn spec_values_query(method: Seq<char>, values: Seq<SpecValue>) -> Seq<char> {
    spec_json(
        SpecValue::Obj(
            seq![("method"@, SpecValue::Str(method)), ("values"@, SpecValue::Arr(values))],
        ),
    )
}

impl Query {
    /// A query with only a method tag.
    pub fn new(method: &str) -> (r: Query)
        ensures
            r.method@ == method@,
            r.attribute is None,
            r.values is None,
    {
        Query { method: String::from_str(method), attribute: None, values: None }
    }

    /// A query with a method tag and an attribute.
    pub fn with_attribute(method: &str, attribute: &str) -> (r: Query)
        ensures
            r.method@ == method@,
            r.attribute matches Some(a) && a@ == attribute@,
            r.values is None,
    {
        Query {
            method: String::from_str(method),
            attribute: Some(String::from_str(attribute)),
            values: None,
        }
    }

    /// A query with a method tag, an attribute and a list of values.
    pub fn with_values(method: &str, attribute: &str, values: Vec<JsonValue>) -> (r: Query)
        ensures
            r.method@ == method@,
            r.attribute matches Some(a) && a@ == attribute@,
            r.values matches Some(vs) && vs@ == values@,
    {
        Query {
            method: String::from_str(method),
            attribute: Some(String::from_str(attribute)),
            values: Some(values),
        }
    }

    /// A query with a method tag, an attribute and a single value.
    pub fn with_value(method: &str, attribute: &str, value: JsonValue) -> (r: Query)
        ensures
            r.method@ == method@,
            r.attribute matches Some(a) && a@ == attribute@,
            r.values matches Some(vs) && vs@ == seq![value],
    {
        let mut vs: Vec<JsonValue> = Vec::new();
        vs.push(value);
        proof {
            assert(vs@ =~= seq![value]);
        }
        Query {
            method: String::from_str(method),
            attribute: Some(String::from_str(attribute)),
            values: Some(vs),
        }
    }

    /// Serializes the query, consuming it.
    pub fn into_json_string(self) -> (r: String)
        ensures
            r@ == spec_json(self@),
    {
        let ghost model = self@;
        let Query { method, attribute, values } = self;
        let mut m: Vec<(String, JsonValue)> = Vec::new();
        m.push((String::from_str("method"), JsonValue::Str(method)));
        match attribute {
            Some(a) => {
                m.push((String::from_str("attribute"), JsonValue::Str(a)));
            },
            None => {},
        }
        match values {
            Some(vs) => {
                m.push((String::from_str("values"), JsonValue::Arr(vs)));
            },
            None => {},
        }
        let v = JsonValue::Obj(m);
        proof {
            crate::json::lemma_jv_pairs_len(m@);
            assert forall|i: int| 0 <= i < m@.len() implies #[trigger] jv_pairs(m@)[i] == (
                m@[i].0@,
                crate::json::jv(m@[i].1),
            ) by {
                crate::json::lemma_jv_pairs_index(m@, i);
            };
            assert(jv_pairs(m@) =~~= model->Obj_0);
            assert(v@ == model);
        }
        v.to_json_string()
    }

    /// Serializes a query scoped to an attribute, with a list of values.
    fn ser_attr_values(method: &str, attribute: &str, values: Vec<JsonValue>) -> (r: String)
        ensures
            r@ == spec_attr_query(method@, attribute@, jv_list(values@)),
    {
        let ghost gvs = values@;
        let q = Query::with_values(method, attribute, values);
        proof {
            let target = SpecValue::Obj(
                seq![
                    ("method"@, SpecValue::Str(method@)),
                    ("attribute"@, SpecValue::Str(attribute@)),
                    ("values"@, SpecValue::Arr(jv_list(gvs))),
                ],
            );
            assert(q@ is Obj && target is Obj);
            assert(q@->Obj_0 =~~= target->Obj_0);
            assert(q@ == target);
        }
        q.into_json_string()
    }

    /// Serializes a query scoped to an attribute, with a single value.
    fn ser_attr_one(method: &str, attribute: &str, value: JsonValue) -> (r: String)
        ensures
            r@ == spec_attr_query(method@, attribute@, seq![value@]),
    {
        let ghost gv = value;
        let mut vs: Vec<JsonValue> = Vec::new();
        vs.push(value);
        proof {
            assert(vs@ =~= seq![gv]);
            crate::json::lemma_jv_list_singleton(gv);
        }
        Query::ser_attr_values(method, attribute, vs)
    }

    /// Serializes a query scoped to an attribute, without values.
    fn ser_attr_only(method: &str, attribute: &str) -> (r: String)
        ensures
            r@ == spec_attr_only_query(method@, attribute@),
    {
        let q = Query::with_attribute(method, attribute);
        proof {
            let target = SpecValue::Obj(
                seq![
                    ("method"@, SpecValue::Str(method@)),
                    ("attribute"@, SpecValue::Str(attribute@)),
                ],
            );
            assert(q@ is Obj && target is Obj);
            assert(q@->Obj_0 =~~= target->Obj_0);
            assert(q@ == target);
        }
        q.into_json_string()
    }

    /// Serializes a positional query: a method tag and a list of values.
    fn ser_positional(method: &str, values: Vec<JsonValue>) -> (r: String)
        ensures
            r@ == spec_values_query(method@, jv_list(values@)),
    {
        let ghost gvs = values@;
        let q = Query { method: String::from_str(method), attribute: None, values: Some(values) };
        proof {
            let target = SpecValue::Obj(
                seq![
                    ("method"@, SpecValue::Str(method@)),
                    ("values"@, SpecValue::Arr(jv_list(gvs))),
                ],
            );
            assert(q@ is Obj && target is Obj);
            assert(q@->Obj_0 =~~= target->Obj_0);
            assert(q@ == target);
        }
        q.into_json_string()
    }

    /// Serializes a positional query with a single value.
    fn ser_positional_one(method: &str, value: JsonValue) -> (r: String)
        ensures
            r@ == spec_values_query(method@, seq![value@]),
    {
        let ghost gv = value;
        let mut vs: Vec<JsonValue> = Vec::new();
        vs.push(value);
        proof {
            assert(vs@ =~= seq![gv]);
            crate::json::lemma_jv_list_singleton(gv);
        }
        Query::ser_positional(method, vs)
    }

    /// `equal` filter: the attribute's value equals the given value.
    pub fn equal(attribute: &str, value: JsonValue) -> (r: String)
        ensures
            r@ == spec_attr_query("equal"@, attribute@, seq![value@]),
    {
        Query::ser_attr_one("equal", attribute, value)
    }

    /// `notEqual` filter: the attribute's value differs from the given value.
    pub fn not_equal(attribute: &str, value: JsonValue) -> (r: String)
        ensures
            r@ == spec_attr_query("notEqual"@, attribute@, seq![value@]),
    {
        Query::ser_attr_one("notEqual", attribute, value)
    }

    /// `lessThan` filter.
    pub fn less_than(attribute: &str, value: JsonValue) -> (r: String)
        ensures
            r@ == spec_attr_query("lessThan"@, attribute@, seq![value@]),
    {
        Query::ser_attr_one("lessThan", attribute, value)
    }

    /// `lessThanEqual` filter.
    pub fn less_than_equal(attribute: &str, value: JsonValue) -> (r: String)
        ensures
            r@ == spec_attr_query("lessThanEqual"@, attribute@, seq![value@]),
    {
        Query::ser_attr_one("lessThanEqual", attribute, value)
    }

    /// `greaterThan` filter.
    pub fn greater_than(attribute: &str, value: JsonValue) -> (r: String)
        ensures
            r@ == spec_attr_query("greaterThan"@, attribute@, seq![value@]),
    {
        Query::ser_attr_one("greaterThan", attribute, value)
    }

    /// `greaterThanEqual` filter.
    pub fn greater_than_equal(attribute: &str, value: JsonValue) -> (r: String)
        ensures
            r@ == spec_attr_query("greaterThanEqual"@, attribute@, seq![value@]),
    {
        Query::ser_attr_one("greaterThanEqual", attribute, value)
    }

    /// `isNull` filter: the attribute is null.
    pub fn is_null(attribute: &str) -> (r: String)
        ensures
            r@ == spec_attr_only_query("isNull"@, attribute@),
    {
        Query::ser_attr_only("isNull", attribute)
    }

    /// `isNotNull` filter: the attribute is not null.
    pub fn is_not_null(attribute: &str) -> (r: String)
        ensures
            r@ == spec_attr_only_query("isNotNull"@, attribute@),
    {
        Query::ser_attr_only("isNotNull", attribute)
    }

    /// `between` filter: the attribute lies between the two bounds.
    pub fn between(attribute: &str, start: JsonValue, end: JsonValue) -> (r: String)
        ensures
            r@ == spec_attr_query("between"@, attribute@, seq![start@, end@]),
    {
        let ghost gs = start;
        let ghost ge = end;
        let mut vs: Vec<JsonValue> = Vec::new();
        vs.push(start);
        vs.push(end);
        proof {
            assert(vs@ =~= seq![gs].push(ge));
            crate::json::lemma_jv_list_singleton(gs);
            crate::json::lemma_jv_list_snoc(seq![gs], ge);
            assert(jv_list(vs@) =~= seq![crate::json::jv(gs), crate::json::jv(ge)]);
        }
        Query::ser_attr_values("between", attribute, vs)
    }

    /// `startsWith` filter on a string attribute.
    pub fn starts_with(attribute: &str, value: &str) -> (r: String)
        ensures
            r@ == spec_attr_query("startsWith"@, attribute@, seq![SpecValue::Str(value@)]),
    {
        Query::ser_attr_one("startsWith", attribute, JsonValue::Str(String::from_str(value)))
    }

    /// `endsWith` filter on a string attribute.
    pub fn ends_with(attribute: &str, value: &str) -> (r: String)
        ensures
            r@ == spec_attr_query("endsWith"@, attribute@, seq![SpecValue::Str(value@)]),
    {
        Query::ser_attr_one("endsWith", attribute, JsonValue::Str(String::from_str(value)))
    }

    /// `select` projection: the attributes to return.
    #[verifier::loop_isolation(false)]
    pub fn select(attributes: Vec<String>) -> (r: String)
        ensures
            r@ == spec_values_query(
                "select"@,
                Seq::new(attributes@.len(), |i: int| SpecValue::Str(attributes@[i]@)),
            ),
    {
        let ghost names = attributes@;
        let ghost target = Seq::new(names.len(), |i: int| SpecValue::Str(names[i]@));
        let mut vs: Vec<JsonValue> = Vec::new();
        let mut i: usize = 0;
        proof {
            assert(jv_list(vs@) =~= target.subrange(0, 0));
        }
        while i < attributes.len()
            invariant
                i <= names.len(),
                jv_list(vs@) == target.subrange(0, i as int),
            decreases names.len() - i,
        {
            let ghost pre = vs@;
            let name = attributes[i].clone();
            vs.push(JsonValue::Str(name));
            proof {
                let pushed = vs@[vs@.len() - 1];
                crate::json::lemma_jv_list_snoc(pre, pushed);
                assert(target.subrange(0, i + 1) =~= target.subrange(0, i as int).push(
                    target[i as int]));
                assert(jv_list(vs@) =~= target.subrange(0, i + 1));
            }
            i = i + 1;
        }
        proof {
            assert(target.subrange(0, target.len() as int) =~= target);
        }
        Query::ser_positional("select", vs)
    }

    /// `search` filter on a string attribute.
    pub fn search(attribute: &str, value: &str) -> (r: String)
        ensures
            r@ == spec_attr_query("search"@, attribute@, seq![SpecValue::Str(value@)]),
    {
        Query::ser_attr_one("search", attribute, JsonValue::Str(String::from_str(value)))
    }

    /// `orderAsc` sort directive.
    pub fn order_asc(attribute: &str) -> (r: String)
        ensures
            r@ == spec_attr_only_query("orderAsc"@, attribute@),
    {
        Query::ser_attr_only("orderAsc", attribute)
    }

    /// `orderDesc` sort directive.
    pub fn order_desc(attribute: &str) -> (r: String)
        ensures
            r@ == spec_attr_only_query("orderDesc"@, attribute@),
    {
        Query::ser_attr_only("orderDesc", attribute)
    }

    /// `cursorBefore` pagination directive.
    pub fn cursor_before(id: &str) -> (r: String)
        ensures
            r@ == spec_values_query("cursorBefore"@, seq![SpecValue::Str(id@)]),
    {
        Query::ser_positional_one("cursorBefore", JsonValue::Str(String::from_str(id)))
    }

    /// `cursorAfter` pagination directive.
    pub fn cursor_after(id: &str) -> (r: String)
        ensures
            r@ == spec_values_query("cursorAfter"@, seq![SpecValue::Str(id@)]),
    {
        Query::ser_positional_one("cursorAfter", JsonValue::Str(String::from_str(id)))
    }

    /// `limit` pagination directive.
    pub fn limit(limit: u32) -> (r: String)
        ensures
            r@ == spec_values_query("limit"@, seq![SpecValue::Int(limit as int)]),
    {
        Query::ser_positional_one("limit", JsonValue::Int(limit as i64))
    }

    /// `offset` pagination directive.
    pub fn offset(offset: u32) -> (r: String)
        ensures
            r@ == spec_values_query("offset"@, seq![SpecValue::Int(offset as int)]),
    {
        Query::ser_positional_one("offset", JsonValue::Int(offset as i64))
    }

    /// `contains` filter.
    pub fn contains(attribute: &str, value: JsonValue) -> (r: String)
        ensures
            r@ == spec_attr_query("contains"@, attribute@, seq![value@]),
    {
        Query::ser_attr_one("contains", attribute, value)
    }

    /// `or` combinator over already-serialized sub-queries; a sub-query that
    /// is not valid JSON is dropped.
    pub fn or_queries(queries: Vec<String>) -> (r: String)
        ensures
            r@ == spec_values_query("or"@, parsed_list(views_of(queries@))),
    {
        Query::combine("or", queries)
    }

    /// `and` combinator over already-serialized sub-queries; a sub-query that
    /// is not valid JSON is dropped.
    pub fn and_queries(queries: Vec<String>) -> (r: String)
        ensures
            r@ == spec_values_query("and"@, parsed_list(views_of(queries@))),
    {
        Query::combine("and", queries)
    }

    /// Shared body of the logical combinators.
    #[verifier::loop_isolation(false)]
    fn combine(method: &str, queries: Vec<String>) -> (r: String)
        ensures
            r@ == spec_values_query(method@, parsed_list(views_of(queries@))),
    {
        let ghost qs = views_of(queries@);
        let mut vs: Vec<JsonValue> = Vec::new();
        let mut i: usize = 0;
        proof {
            assert(qs.subrange(0, 0) =~= Seq::<Seq<char>>::empty());
            assert(jv_list(vs@) =~= parsed_list(qs.subrange(0, 0)));
        }
        while i < queries.len()
            invariant
                i <= qs.len(),
                jv_list(vs@) == parsed_list(qs.subrange(0, i as int)),
            decreases qs.len() - i,
        {
            match JsonValue::parse_json(queries[i].as_str()) {
                Some(v) => {
                    let ghost pre = vs@;
                    vs.push(v);
                    proof {
                        let pushed = vs@[vs@.len() - 1];
                        crate::json::lemma_jv_list_snoc(pre, pushed);
                        lemma_parsed_list_snoc(qs.subrange(0, i as int), qs[i as int]);
                        assert(qs.subrange(0, i + 1) =~= qs.subrange(0, i as int).push(
                            qs[i as int]));
                        assert(jv_list(vs@) =~= parsed_list(qs.subrange(0, i + 1)));
                    }
                },
                None => {
                    proof {
                        lemma_parsed_list_snoc(qs.subrange(0, i as int), qs[i as int]);
                        assert(qs.subrange(0, i + 1) =~= qs.subrange(0, i as int).push(
                            qs[i as int]));
                        assert(jv_list(vs@) =~= parsed_list(qs.subrange(0, i + 1)));
                    }
                },
            }
            i = i + 1;
        }
        proof {
            assert(qs.subrange(0, qs.len() as int) =~= qs);
        }
        Query::ser_positional(method, vs)
    }
}

} // verus!
