//! Clojure values as returned to callers outside the interpreter, and how
//! they print.
use vstd::prelude::*;
use vstd::string::*;

verus! {

/// A Clojure value.  A double is held as the text Rust prints for it.
#[derive(Debug)]
pub enum ClojureValue {
    Nil,
    Bool(bool),
    Int(i64),
    Float(String),
    String(String),
    Keyword(String),
    Symbol(String),
    List(Vec<ClojureValue>),
    Vector(Vec<ClojureValue>),
    HashMap(Vec<(ClojureValue, ClojureValue)>),
    HashSet(Vec<ClojureValue>),
    /// Opaque handle for values without a structural Rust equivalent; `tag`
    /// is the Clojure pr-str form.
    Opaque { tag: String },
}

/// The text `{:?}` gives for a string: the string quoted, with its special
/// characters escaped.
pub uninterp spec fn debug_quoted(s: Seq<char>) -> Seq<char>;

/// `format!("{:?}", s)` for a string.
#[verifier::external_body]
fn debug_string(s: &str) -> (r: String)
    ensures
        r@ == debug_quoted(s@),
{
    format!("{s:?}")
}

/// The decimal digit `d`.
pub open spec fn digit_char(d: int) -> char {
    if d == 0 {
        '0'
    } else if d == 1 {
        '1'
    } else if d == 2 {
        '2'
    } else if d == 3 {
        '3'
    } else if d == 4 {
        '4'
    } else if d == 5 {
        '5'
    } else if d == 6 {
        '6'
    } else if d == 7 {
        '7'
    } else if d == 8 {
        '8'
    } else {
        '9'
    }
}

/// The decimal digits of `n`, most significant first, without leading zeros.
pub open spec fn nat_text(n: nat) -> Seq<char>
    decreases n,
{
    if n < 10 {
        seq![digit_char(n as int)]
    } else {
        nat_text(n / 10).push(digit_char((n % 10) as int))
    }
}

/// How an integer prints: its decimal digits, after `-` when negative.
pub open spec fn int_text(n: int) -> Seq<char> {
    if n < 0 {
        seq!['-'] + nat_text((-n) as nat)
    } else {
        nat_text(n as nat)
    }
}

/// How a value prints.
pub open spec fn printed(v: ClojureValue) -> Seq<char>
    decreases v, 1int, 0int,
{
    match v {
        ClojureValue::Nil => seq!['n', 'i', 'l'],
        ClojureValue::Bool(b) => if b {
            seq!['t', 'r', 'u', 'e']
        } else {
            seq!['f', 'a', 'l', 's', 'e']
        },
        ClojureValue::Int(n) => int_text(n as int),
        ClojureValue::Float(t) => t@,
        ClojureValue::String(s) => debug_quoted(s@),
        ClojureValue::Keyword(k) => seq![':'] + k@,
        ClojureValue::Symbol(s) => s@,
        ClojureValue::List(items) => seq!['('] + printed_items(v, items.len() as int) + seq![')'],
        ClojureValue::Vector(items) => seq!['['] + printed_items(v, items.len() as int) + seq![']'],
        ClojureValue::HashMap(pairs) => seq!['{'] + printed_pairs(v, pairs.len() as int) + seq!['}'],
        ClojureValue::HashSet(items) => seq!['#', '{'] + printed_items(v, items.len() as int) + seq!['}'],
        ClojureValue::Opaque { tag } => seq!['#', '<'] + tag@ + seq!['>'],
    }
}

/// The first `k` items of a list, vector or set, separated by spaces.
pub open spec fn printed_items(v: ClojureValue, k: int) -> Seq<char>
    decreases v, 0int, k,
{
    match v {
        ClojureValue::List(items) => if k <= 0 || k > items.len() {
            Seq::empty()
        } else {
            printed_items(v, k - 1) + (if k > 1 {
                seq![' ']
            } else {
                Seq::empty()
            }) + printed(items[k - 1])
        },
        ClojureValue::Vector(items) => if k <= 0 || k > items.len() {
            Seq::empty()
        } else {
            printed_items(v, k - 1) + (if k > 1 {
                seq![' ']
            } else {
                Seq::empty()
            }) + printed(items[k - 1])
        },
        ClojureValue::HashSet(items) => if k <= 0 || k > items.len() {
            Seq::empty()
        } else {
            printed_items(v, k - 1) + (if k > 1 {
                seq![' ']
            } else {
                Seq::empty()
            }) + printed(items[k - 1])
        },
        _ => Seq::empty(),
    }
}

/// The first `k` entries of a map: key and value separated by a space,
/// entries by a comma and a space.
pub open spec fn printed_pairs(v: ClojureValue, k: int) -> Seq<char>
    decreases v, 0int, k,
{
    match v {
        ClojureValue::HashMap(pairs) => if k <= 0 || k > pairs.len() {
            Seq::empty()
        } else {
            printed_pairs(v, k - 1) + (if k > 1 {
                seq![',', ' ']
            } else {
                Seq::empty()
            }) + printed(pairs[k - 1].0) + seq![' '] + printed(pairs[k - 1].1)
        },
        _ => Seq::empty(),
    }
}

/// The decimal digit `d` as text.
fn digit_text(d: u64) -> (r: &'static str)
    requires
        d < 10,
    ensures
        r@ == seq![digit_char(d as int)],
{
    let digits = "0123456789";
    proof {
        reveal_strlit("0123456789");
    }
    assert(digits.is_ascii());
    digits.substring_ascii(d as usize, d as usize + 1)
}

/// Append the decimal digits of `m`.
pub(crate) fn push_nat(m: u64, out: &mut String)
    ensures
        final(out)@ == old(out)@ + nat_text(m as nat),
    decreases m,
{
    if m >= 10 {
        push_nat(m / 10, out);
    }
    out.append(digit_text(m % 10));
    proof {
        if m >= 10 {
            assert(nat_text(m as nat) == nat_text((m / 10) as nat).push(digit_char((m % 10) as int)));
        }
    }
    assert(out@ =~= old(out)@ + nat_text(m as nat)) by {
        if m < 10 {
            assert(m % 10 == m);
        }
    }
}

/// Append the decimal text of `n`.
fn push_int(n: i64, out: &mut String)
    ensures
        final(out)@ == old(out)@ + int_text(n as int),
{
    if n < 0 {
        out.append("-");
        proof {
            reveal_strlit("-");
        }
        let m: u64 = if n == i64::MIN {
            9223372036854775808u64
        } else {
            (-n) as u64
        };
        push_nat(m, out);
        assert(out@ =~= old(out)@ + int_text(n as int));
    } else {
        push_nat(n as u64, out);
    }
}

/// The items of a list, vector or set.
pub open spec fn seq_items(v: ClojureValue) -> Seq<ClojureValue> {
    match v {
        ClojureValue::List(items) => items@,
        ClojureValue::Vector(items) => items@,
        ClojureValue::HashSet(items) => items@,
        _ => Seq::empty(),
    }
}

impl ClojureValue {
    /// Everything but `nil` and `false` is truthy.
    pub fn is_truthy(&self) -> (r: bool)
        ensures
            r == !(*self is Nil || *self == ClojureValue::Bool(false)),
    {
        match self {
            ClojureValue::Nil => false,
            ClojureValue::Bool(b) => *b,
            _ => true,
        }
    }

    /// The value's printed form, as Clojure shows it.
    pub fn to_text(&self) -> (r: String)
        ensures
            r@ == printed(*self),
    {
        let mut out = String::new();
        self.write_to(&mut out);
        assert(out@ =~= printed(*self));
        out
    }

    fn write_to(&self, out: &mut String)
        ensures
            final(out)@ == old(out)@ + printed(*self),
        decreases *self, 1int,
    {
        match self {
            ClojureValue::Nil => {
                out.append("nil");
                proof {
                    reveal_strlit("nil");
                }
            },
            ClojureValue::Bool(b) => {
                if *b {
                    out.append("true");
                    proof {
                        reveal_strlit("true");
                    }
                } else {
                    out.append("false");
                    proof {
                        reveal_strlit("false");
                    }
                }
            },
            ClojureValue::Int(n) => {
                push_int(*n, out);
            },
            ClojureValue::Float(t) => {
                out.append(t.as_str());
            },
            ClojureValue::String(st) => {
                let q = debug_string(st.as_str());
                out.append(q.as_str());
            },
            ClojureValue::Keyword(k) => {
                out.append(":");
                proof {
                    reveal_strlit(":");
                }
                out.append(k.as_str());
                assert(out@ =~= old(out)@ + printed(*self));
            },
            ClojureValue::Symbol(sy) => {
                out.append(sy.as_str());
            },
            ClojureValue::List(_) => {
                out.append("(");
                proof {
                    reveal_strlit("(");
                }
                self.write_items(out);
                out.append(")");
                proof {
                    reveal_strlit(")");
                }
                assert(out@ =~= old(out)@ + printed(*self));
            },
            ClojureValue::Vector(_) => {
                out.append("[");
                proof {
                    reveal_strlit("[");
                }
                self.write_items(out);
                out.append("]");
                proof {
                    reveal_strlit("]");
                }
                assert(out@ =~= old(out)@ + printed(*self));
            },
            ClojureValue::HashSet(_) => {
                out.append("#{");
                proof {
                    reveal_strlit("#{");
                }
                self.write_items(out);
                out.append("}");
                proof {
                    reveal_strlit("}");
                }
                assert(out@ =~= old(out)@ + printed(*self));
            },
            ClojureValue::HashMap(_) => {
                out.append("{");
                proof {
                    reveal_strlit("{");
                }
                self.write_pairs(out);
                out.append("}");
                proof {
                    reveal_strlit("}");
                }
                assert(out@ =~= old(out)@ + printed(*self));
            },
            ClojureValue::Opaque { tag } => {
                out.append("#<");
                proof {
                    reveal_strlit("#<");
                }
                out.append(tag.as_str());
                out.append(">");
                proof {
                    reveal_strlit(">");
                }
                assert(out@ =~= old(out)@ + printed(*self));
            },
        }
    }

    /// Append the items of a list, vector or set, separated by spaces.
    fn write_items(&self, out: &mut String)
        requires
            *self is List || *self is Vector || *self is HashSet,
        ensures
            final(out)@ == old(out)@ + printed_items(*self, seq_items(*self).len() as int),
        decreases *self, 0int,
    {
        let items = match self {
            ClojureValue::List(items) => items,
            ClojureValue::Vector(items) => items,
            ClojureValue::HashSet(items) => items,
            _ => {
                return;
            },
        };
        let ghost start = old(out)@;
        let mut i: usize = 0;
        while i < items.len()
            invariant
                i <= items.len(),
                items@ == seq_items(*self),
                *self is List || *self is Vector || *self is HashSet,
                out@ == start + printed_items(*self, i as int),
            decreases items.len() - i,
        {
            if i > 0 {
                out.append(" ");
                proof {
                    reveal_strlit(" ");
                }
            }
            items[i].write_to(out);
            assert(out@ =~= start + printed_items(*self, i + 1));
            i = i + 1;
        }
    }

    /// Append the entries of a map.
    fn write_pairs(&self, out: &mut String)
        requires
            *self is HashMap,
        ensures
            final(out)@ == old(out)@ + printed_pairs(*self, self->HashMap_0.len() as int),
        decreases *self, 0int,
    {
        let pairs = match self {
            ClojureValue::HashMap(pairs) => pairs,
            _ => {
                return;
            },
        };
        let ghost start = old(out)@;
        let mut i: usize = 0;
        while i < pairs.len()
            invariant
                i <= pairs.len(),
                *self is HashMap,
                pairs@ == self->HashMap_0@,
                out@ == start + printed_pairs(*self, i as int),
            decreases pairs.len() - i,
        {
            if i > 0 {
                out.append(", ");
                proof {
                    reveal_strlit(", ");
                }
            }
            let pair = &pairs[i];
            pair.0.write_to(out);
            out.append(" ");
            proof {
                reveal_strlit(" ");
            }
            pair.1.write_to(out);
            assert(out@ =~= start + printed_pairs(*self, i + 1));
            i = i + 1;
        }
    }
}

} // verus!
