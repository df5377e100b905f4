//! How the words read from a register are shown, and how many words each
//! variable type needs.
use vstd::prelude::*;

use crate::config::model::RegisterConfig;
use crate::text::{decimal, push_char, push_decimal, push_signed_decimal, signed_decimal, str_equal};

verus! {

/// The variable types that a register can declare.
#[derive(Debug, Clone, Copy, PartialEq, Eq, Structural)]
pub enum VarKind {
    Bool,
    U16,
    I16,
    U32,
    I32,
    Float,
    Other,
}

pub open spec fn spec_var_kind(var_type: Seq<char>) -> VarKind {
    if var_type == "bool"@ {
        VarKind::Bool
    } else if var_type == "u16"@ {
        VarKind::U16
    } else if var_type == "i16"@ {
        VarKind::I16
    } else if var_type == "u32"@ {
        VarKind::U32
    } else if var_type == "i32"@ {
        VarKind::I32
    } else if var_type == "float"@ {
        VarKind::Float
    } else {
        VarKind::Other
    }
}

/// The kind of variable that the type name `var_type` declares.
pub fn var_kind(var_type: &str) -> (k: VarKind)
    ensures
        k == spec_var_kind(var_type@),
{
    if str_equal(var_type, "bool") {
        VarKind::Bool
    } else if str_equal(var_type, "u16") {
        VarKind::U16
    } else if str_equal(var_type, "i16") {
        VarKind::I16
    } else if str_equal(var_type, "u32") {
        VarKind::U32
    } else if str_equal(var_type, "i32") {
        VarKind::I32
    } else if str_equal(var_type, "float") {
        VarKind::Float
    } else {
        VarKind::Other
    }
}

/// How many 16-bit words are read for a variable of type `var_type`: two for
/// the 32-bit types (`u32`, `i32`, `float`), one for every other type.
pub open spec fn spec_quantity(var_type: Seq<char>) -> u16 {
    match spec_var_kind(var_type) {
        VarKind::U32 | VarKind::I32 | VarKind::Float => 2,
        _ => 1,
    }
}

/// Number of 16-bit registers to read for the variable type `var_type`.
pub fn compute_quantity(var_type: &str) -> (q: u16)
    ensures
        q == spec_quantity(var_type@),
{
    match var_kind(var_type) {
        VarKind::U32 | VarKind::I32 | VarKind::Float => 2,
        _ => 1,
    }
}

/// `"true"` when the first coil or discrete input read is set, `"false"`
/// when it is clear or nothing was read.
pub fn format_bool_value(data: Vec<bool>) -> (s: String)
    ensures
        s@ == (if data@.len() > 0 && data@[0] {
            "true"@
        } else {
            "false"@
        }),
{
    if data.len() > 0 && data[0] {
        String::from_str("true")
    } else {
        String::from_str("false")
    }
}

/// What is shown for a register read: a text, or the bits of an IEEE-754
/// single-precision value, which are shown with three decimals.
#[derive(Debug)]
pub enum RegisterText {
    Text(String),
    Float32Bits(u32),
}

/// The abstract content of a `RegisterText`.
pub enum RegisterReading {
    Text(Seq<char>),
    Float32Bits(u32),
}

impl View for RegisterText {
    type V = RegisterReading;

    open spec fn view(&self) -> RegisterReading {
        match self {
            RegisterText::Text(s) => RegisterReading::Text(s@),
            RegisterText::Float32Bits(b) => RegisterReading::Float32Bits(*b),
        }
    }
}

/// Shown when fewer words were read than the type needs.
pub open spec fn insufficient_data() -> Seq<char> {
    "Недостаточно данных"@
}

/// The 32-bit value of two words, the first word being the low half.
pub open spec fn word_pair(low: u16, high: u16) -> nat {
    (high as nat) * 65536 + (low as nat)
}

/// A 16-bit word read as a two's complement signed value.
pub open spec fn as_i16(w: u16) -> int {
    if w >= 32768 {
        w - 65536
    } else {
        w as int
    }
}

/// A 32-bit value read as a two's complement signed value.
pub open spec fn as_i32(v: nat) -> int {
    if v >= 0x8000_0000 {
        v - 0x1_0000_0000
    } else {
        v as int
    }
}

/// The words separated by `", "`, each in decimal.
pub open spec fn joined_words(data: Seq<u16>) -> Seq<char>
    decreases data.len(),
{
    if data.len() == 0 {
        Seq::empty()
    } else if data.len() == 1 {
        decimal(data[0] as nat)
    } else {
        joined_words(data.drop_last()) + ", "@ + decimal(data.last() as nat)
    }
}

/// The words as a bracketed list, e.g. `[1, 2, 3]`.
pub open spec fn word_list(data: Seq<u16>) -> Seq<char> {
    "["@ + joined_words(data) + "]"@
}

/// What is shown for the words `data` read from a register of type
/// `var_type`.
pub open spec fn spec_register_reading(data: Seq<u16>, var_type: Seq<char>) -> RegisterReading {
    match spec_var_kind(var_type) {
        VarKind::Bool => RegisterReading::Text(
            if data.len() >= 1 {
                if data[0] != 0 {
                    "true"@
                } else {
                    "false"@
                }
            } else {
                insufficient_data()
            },
        ),
        VarKind::U16 => RegisterReading::Text(
            if data.len() >= 1 {
                decimal(data[0] as nat)
            } else {
                insufficient_data()
            },
        ),
        VarKind::I16 => RegisterReading::Text(
            if data.len() >= 1 {
                signed_decimal(as_i16(data[0]))
            } else {
                insufficient_data()
            },
        ),
        VarKind::U32 => RegisterReading::Text(
            if data.len() >= 2 {
                decimal(word_pair(data[0], data[1]))
            } else {
                insufficient_data()
            },
        ),
        VarKind::I32 => RegisterReading::Text(
            if data.len() >= 2 {
                signed_decimal(as_i32(word_pair(data[0], data[1])))
            } else {
                insufficient_data()
            },
        ),
        VarKind::Float => if data.len() >= 2 {
            RegisterReading::Float32Bits(word_pair(data[0], data[1]) as u32)
        } else {
            RegisterReading::Text(insufficient_data())
        },
        VarKind::Other => RegisterReading::Text(word_list(data)),
    }
}

fn insufficient_data_text() -> (s: String)
    ensures
        s@ == insufficient_data(),
{
    String::from_str("Недостаточно данных")
}

fn combine_words(low: u16, high: u16) -> (v: u32)
    ensures
        v as nat == word_pair(low, high),
{
    (high as u32) * 65536 + (low as u32)
}

fn push_word_list(s: &mut String, data: &[u16])
    ensures
        final(s)@ == old(s)@ + word_list(data@),
{
    proof {
        reveal_strlit("[");
        reveal_strlit("]");
        reveal_strlit(", ");
    }
    push_char(s, '[');
    let n = data.len();
    for i in 0..n
        invariant
            n == data@.len(),
            s@ == old(s)@ + "["@ + joined_words(data@.take(i as int)),
    {
        let ghost before = s@;
        if i > 0 {
            push_char(s, ',');
            push_char(s, ' ');
        }
        push_decimal(s, data[i] as u64);
        proof {
            let t = data@.take(i + 1);
            assert(t.drop_last() == data@.take(i as int));
            assert(t.last() == data@[i as int]);
            if i == 0 {
                assert(data@.take(0) == Seq::<u16>::empty());
                assert(joined_words(t) == decimal(data@[0] as nat));
            } else {
                reveal_strlit(", ");
                assert(before.push(',').push(' ') =~= before + ", "@);
            }
        }
    }
    push_char(s, ']');
    assert(data@.take(n as int) == data@);
}

/// What is shown for the words `data` read from `register`, by its variable
/// type: `bool` as `true`/`false`; `u16`, `i16`, `u32`, `i32` in decimal
/// (32-bit values take the first word as the low half); `float` as the bits
/// of the combined words; an unknown type as the list of all words; and a
/// notice when fewer words were read than the type needs.
pub fn process_register_data(data: &[u16], register: &RegisterConfig) -> (r: RegisterText)
    ensures
        r@ == spec_register_reading(data@, register.var_type@),
{
    let n = data.len();
    match var_kind(register.var_type.as_str()) {
        VarKind::Bool => {
            if n >= 1 {
                if data[0] != 0 {
                    RegisterText::Text(String::from_str("true"))
                } else {
                    RegisterText::Text(String::from_str("false"))
                }
            } else {
                RegisterText::Text(insufficient_data_text())
            }
        },
        VarKind::U16 => {
            if n >= 1 {
                let mut s = String::new();
                push_decimal(&mut s, data[0] as u64);
                assert(Seq::<char>::empty() + decimal(data@[0] as nat) == decimal(data@[0] as nat));
                RegisterText::Text(s)
            } else {
                RegisterText::Text(insufficient_data_text())
            }
        },
        VarKind::I16 => {
            if n >= 1 {
                let w = data[0];
                let v: i64 = if w >= 32768 {
                    w as i64 - 65536
                } else {
                    w as i64
                };
                let mut s = String::new();
                push_signed_decimal(&mut s, v);
                assert(Seq::<char>::empty() + signed_decimal(v as int) == signed_decimal(v as int));
                RegisterText::Text(s)
            } else {
                RegisterText::Text(insufficient_data_text())
            }
        },
        VarKind::U32 => {
            if n >= 2 {
                let v = combine_words(data[0], data[1]);
                let mut s = String::new();
                push_decimal(&mut s, v as u64);
                assert(Seq::<char>::empty() + decimal(v as nat) == decimal(v as nat));
                RegisterText::Text(s)
            } else {
                RegisterText::Text(insufficient_data_text())
            }
        },
        VarKind::I32 => {
            if n >= 2 {
                let u = combine_words(data[0], data[1]);
                let v: i64 = if u >= 0x8000_0000 {
                    u as i64 - 0x1_0000_0000
                } else {
                    u as i64
                };
                let mut s = String::new();
                push_signed_decimal(&mut s, v);
                assert(Seq::<char>::empty() + signed_decimal(v as int) == signed_decimal(v as int));
                RegisterText::Text(s)
            } else {
                RegisterText::Text(insufficient_data_text())
            }
        },
        VarKind::Float => {
            if n >= 2 {
                RegisterText::Float32Bits(combine_words(data[0], data[1]))
            } else {
                RegisterText::Text(insufficient_data_text())
            }
        },
        VarKind::Other => {
            let mut s = String::new();
            push_word_list(&mut s, data);
            assert(Seq::<char>::empty() + word_list(data@) == word_list(data@));
            RegisterText::Text(s)
        },
    }
}

// ---------------------------------------------------------------------------
// Laws
// ---------------------------------------------------------------------------

/// Each type name selects its own kind.
pub proof fn lemma_var_kind_names()
    ensures
        spec_var_kind("bool"@) == VarKind::Bool,
        spec_var_kind("u16"@) == VarKind::U16,
        spec_var_kind("i16"@) == VarKind::I16,
        spec_var_kind("u32"@) == VarKind::U32,
        spec_var_kind("i32"@) == VarKind::I32,
        spec_var_kind("float"@) == VarKind::Float,
{
    reveal_strlit("bool");
    reveal_strlit("u16");
    reveal_strlit("i16");
    reveal_strlit("u32");
    reveal_strlit("i32");
    reveal_strlit("float");
    assert("u16"@[0] != "i16"@[0]);
    assert("u16"@[1] != "u32"@[1]);
    assert("i16"@[1] != "i32"@[1]);
    assert("u32"@[0] != "i32"@[0]);
    assert("u16"@[0] != "i32"@[0]);
    assert("i16"@[0] != "u32"@[0]);
    assert("float"@.len() != "bool"@.len());
    assert("float"@.len() != "u16"@.len());
    assert("float"@.len() != "i16"@.len());
    assert("float"@.len() != "u32"@.len());
    assert("float"@.len() != "i32"@.len());
}

proof fn lemma_signed_decimal_first(i: int)
    ensures
        signed_decimal(i).len() >= 1,
        signed_decimal(i)[0] == '-' || '0' <= signed_decimal(i)[0] <= '9',
{
    if i < 0 {
        crate::text::lemma_decimal_digits((-i) as nat);
    } else {
        crate::text::lemma_decimal_digits(i as nat);
    }
}

/// Reading as many words as `compute_quantity` asks for is always enough:
/// the notice of missing data is then never shown.
pub proof fn law_quantity_is_enough(data: Seq<u16>, var_type: Seq<char>)
    requires
        data.len() >= spec_quantity(var_type),
    ensures
        spec_register_reading(data, var_type) != RegisterReading::Text(insufficient_data()),
{
    reveal_strlit("Недостаточно данных");
    reveal_strlit("true");
    reveal_strlit("false");
    reveal_strlit("[");
    let notice = insufficient_data();
    assert(notice[0] == 'Н');
    match spec_var_kind(var_type) {
        VarKind::U16 => {
            crate::text::lemma_decimal_digits(data[0] as nat);
            assert(decimal(data[0] as nat)[0] != notice[0]);
        },
        VarKind::U32 => {
            crate::text::lemma_decimal_digits(word_pair(data[0], data[1]));
            assert(decimal(word_pair(data[0], data[1]))[0] != notice[0]);
        },
        VarKind::I16 => {
            lemma_signed_decimal_first(as_i16(data[0]));
            assert(signed_decimal(as_i16(data[0]))[0] != notice[0]);
        },
        VarKind::I32 => {
            lemma_signed_decimal_first(as_i32(word_pair(data[0], data[1])));
            assert(signed_decimal(as_i32(word_pair(data[0], data[1])))[0] != notice[0]);
        },
        VarKind::Other => {
            assert(word_list(data)[0] == '[');
        },
        _ => {},
    }
}

/// A `float` register shows the very bits that the same words give as a
/// `u32` value: both read the first word as the low half.
pub proof fn law_float_bits_are_u32_value(data: Seq<u16>)
    requires
        data.len() >= 2,
    ensures
        spec_register_reading(data, "float"@) == RegisterReading::Float32Bits(
            word_pair(data[0], data[1]) as u32,
        ),
        spec_register_reading(data, "u32"@) == RegisterReading::Text(
            decimal(word_pair(data[0], data[1]) as u32 as nat),
        ),
{
    lemma_var_kind_names();
    assert(word_pair(data[0], data[1]) <= 0xffff_ffff);
}

/// A `bool` register shows `"true"` exactly when its first word is non-zero,
/// whatever that word is, and `"false"` exactly when it is zero: every bit of
/// the word counts, not only the lowest.
pub proof fn law_bool_register_is_nonzero_word(data: Seq<u16>)
    requires
        data.len() >= 1,
    ensures
        (spec_register_reading(data, "bool"@) == RegisterReading::Text("true"@)) <==> data[0] != 0,
        (spec_register_reading(data, "bool"@) == RegisterReading::Text("false"@)) <==> data[0] == 0,
{
    lemma_var_kind_names();
    reveal_strlit("true");
    reveal_strlit("false");
    assert("true"@ != "false"@) by {
        assert("true"@.len() != "false"@.len());
    }
}

} // verus!
