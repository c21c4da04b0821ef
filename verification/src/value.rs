//! The JSON value model: the tagged union that an event stream is
//! materialized into and that the serializer renders back to text, together
//! with its mathematical counterpart over sequences.
use vstd::prelude::*;

verus! {

broadcast use vstd::seq::axiom_seq_index_decreases, vstd::std_specs::vec::axiom_vec_index_decreases, vstd::std_specs::vec::axiom_vec_decreases_to_view;

/// A native representation of any JSON value.
///
/// Numbers are carried as their validated lexical text, so a value renders
/// back exactly as it was written; object entries are an association list
/// whose keys are unique, with no meaning attached to their order.
#[derive(Debug)]
pub enum JsonValue {
    /// A JSON `null`.
    Null,
    /// A JSON `true` or `false`.
    Boolean(bool),
    /// A JSON number, as its lexical text (for example `-12.5e3`).
    Number(String),
    /// A JSON string.
    String(String),
    /// A JSON array.
    Array(Vec<JsonValue>),
    /// A JSON object: entries of unique keys, order insignificant.
    Object(Vec<(String, JsonValue)>),
}

/// The mathematical counterpart of [`JsonValue`], over `Seq`.
pub enum GJson {
    GNull,
    GBool(bool),
    GNum(Seq<char>),
    GStr(Seq<char>),
    GArr(Seq<GJson>),
    GObj(Seq<(Seq<char>, GJson)>),
}

impl JsonValue {
    /// The mathematical value this `JsonValue` denotes.
    pub open spec fn gview(&self) -> GJson
        decreases self,
    {
        match self {
            JsonValue::Null => GJson::GNull,
            JsonValue::Boolean(b) => GJson::GBool(*b),
            JsonValue::Number(t) => GJson::GNum(t@),
            JsonValue::String(s) => GJson::GStr(s@),
            JsonValue::Array(elems) => GJson::GArr(gview_seq(elems@)),
            JsonValue::Object(entries) => GJson::GObj(gview_entries(entries@)),
        }
    }
}

/// The mathematical values of a sequence of `JsonValue`s, elementwise.
pub open spec fn gview_seq(s: Seq<JsonValue>) -> Seq<GJson>
    decreases s,
{
    if s.len() == 0 {
        Seq::empty()
    } else {
        gview_seq(s.drop_last()).push(s.last().gview())
    }
}

/// The mathematical values of a sequence of object entries, elementwise.
pub open spec fn gview_entries(s: Seq<(String, JsonValue)>) -> Seq<(Seq<char>, GJson)>
    decreases s,
{
    if s.len() == 0 {
        Seq::empty()
    } else {
        gview_entries(s.drop_last()).push((s.last().0@, s.last().1.gview()))
    }
}

/// `gview_seq` maps elementwise: it has the same length and views each element.
pub proof fn lemma_gview_seq(s: Seq<JsonValue>)
    ensures
        gview_seq(s).len() == s.len(),
        forall|i: int| 0 <= i < s.len() ==> #[trigger] gview_seq(s)[i] == s[i].gview(),
    decreases s,
{
    if s.len() > 0 {
        lemma_gview_seq(s.drop_last());
        assert forall|i: int| 0 <= i < s.len() implies #[trigger] gview_seq(s)[i] == s[i].gview() by {
            if i < s.len() - 1 {
                assert(s.drop_last()[i] == s[i]);
            } else {
                assert(s[i] == s.last());
            }
        }
    }
}

/// `gview_entries` maps elementwise over key/value pairs.
pub proof fn lemma_gview_entries(s: Seq<(String, JsonValue)>)
    ensures
        gview_entries(s).len() == s.len(),
        forall|i: int|
            0 <= i < s.len() ==> #[trigger] gview_entries(s)[i] == (s[i].0@, s[i].1.gview()),
    decreases s,
{
    if s.len() > 0 {
        lemma_gview_entries(s.drop_last());
        assert forall|i: int|
            0 <= i < s.len() implies #[trigger] gview_entries(s)[i] == (s[i].0@, s[i].1.gview()) by {
            if i < s.len() - 1 {
                assert(s.drop_last()[i] == s[i]);
            } else {
                assert(s[i] == s.last());
            }
        }
    }
}


impl JsonValue {
    /// Structural equality: two values are equal exactly when they denote
    /// the same mathematical value. Object entries are compared in order.
    #[verifier::loop_isolation(false)]
    pub fn equals(&self, other: &JsonValue) -> (r: bool)
        ensures
            r == (self.gview() == other.gview()),
        decreases self,
    {
        match (self, other) {
            (JsonValue::Null, JsonValue::Null) => true,
            (JsonValue::Boolean(a), JsonValue::Boolean(b)) => *a == *b,
            (JsonValue::Number(a), JsonValue::Number(b)) => *a == *b,
            (JsonValue::String(a), JsonValue::String(b)) => *a == *b,
            (JsonValue::Array(a), JsonValue::Array(b)) => {
                proof {
                    lemma_gview_seq(a@);
                    lemma_gview_seq(b@);
                }
                if a.len() != b.len() {
                    return false;
                }
                let mut i: usize = 0;
                while i < a.len()
                    invariant
                        i <= a.len(),
                        forall|j: int| 0 <= j < i ==> gview_seq(a@)[j] == gview_seq(b@)[j],
                    decreases a.len() - i,
                {
                    proof {
                        let vv = *self;
                        assert(decreases_to!(vv => vv->Array_0));
                        assert(decreases_to!(vv->Array_0 => vv->Array_0@));
                        assert(decreases_to!(vv->Array_0@ => vv->Array_0@[i as int]));
                        assert(decreases_to!(vv => a@[i as int]));
                    }
                    if !a[i].equals(&b[i]) {
                        proof {
                            assert(gview_seq(a@)[i as int] != gview_seq(b@)[i as int]);
                        }
                        return false;
                    }
                    i = i + 1;
                }
                proof {
                    assert(gview_seq(a@) =~= gview_seq(b@));
                }
                true
            },
            (JsonValue::Object(a), JsonValue::Object(b)) => {
                proof {
                    lemma_gview_entries(a@);
                    lemma_gview_entries(b@);
                }
                if a.len() != b.len() {
                    return false;
                }
                let mut i: usize = 0;
                while i < a.len()
                    invariant
                        i <= a.len(),
                        forall|j: int| 0 <= j < i ==> gview_entries(a@)[j] == gview_entries(b@)[j],
                    decreases a.len() - i,
                {
                    proof {
                        let vv = *self;
                        assert(decreases_to!(vv => vv->Object_0));
                        assert(decreases_to!(vv->Object_0 => vv->Object_0@));
                        assert(decreases_to!(vv->Object_0@ => vv->Object_0@[i as int]));
                        assert(decreases_to!(vv->Object_0@[i as int] => vv->Object_0@[i as int].1));
                        assert(decreases_to!(vv => a@[i as int].1));
                    }
                    let same_key = a[i].0 == b[i].0;
                    if !same_key {
                        proof {
                            assert(gview_entries(a@)[i as int] != gview_entries(b@)[i as int]);
                        }
                        return false;
                    }
                    if !a[i].1.equals(&b[i].1) {
                        proof {
                            assert(gview_entries(a@)[i as int] != gview_entries(b@)[i as int]);
                        }
                        return false;
                    }
                    i = i + 1;
                }
                proof {
                    assert(gview_entries(a@) =~= gview_entries(b@));
                }
                true
            },
            _ => false,
        }
    }
}

} // verus!
