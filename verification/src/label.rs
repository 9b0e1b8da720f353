//! Labels under which the parts of a loaded scene are registered.

use vstd::prelude::*;

verus! {

/// The character of one decimal digit.
pub open spec fn digit_char(d: nat) -> char
    recommends
        d < 10,
{
    (d + 48) as char
}

/// The decimal notation of a natural number, without leading zeros.
pub open spec fn decimal(n: nat) -> Seq<char>
    decreases n,
{
    if n < 10 {
        seq![digit_char(n)]
    } else {
        decimal(n / 10).push(digit_char(n % 10))
    }
}

/// `std::string::String::push`: appends one character to the string.
#[verifier::external_body]
fn push_char(s: &mut String, c: char)
    ensures
        final(s)@ == old(s)@.push(c),
{
    s.push(c)
}

/// Appends the decimal notation of `n` to `out`.
pub fn push_decimal(out: &mut String, n: usize)
    ensures
        final(out)@ == old(out)@ + decimal(n as nat),
    decreases n,
{
    if n >= 10 {
        push_decimal(out, n / 10);
    }
    let d: u8 = (n % 10) as u8;
    push_char(out, (d + 48) as char);
    proof {
        if n >= 10 {
            assert(old(out)@ + decimal(n as nat) =~= (old(out)@ + decimal((n / 10) as nat)).push(
                digit_char((n % 10) as nat),
            ));
        } else {
            assert(old(out)@ + decimal(n as nat) =~= old(out)@.push(digit_char(n as nat)));
        }
    }
}

/// The label of the material at position `idx` of a scene: the word
/// `Material` followed by the decimal index.
pub fn material_label(idx: usize) -> (label: String)
    ensures
        label@ == "Material"@ + decimal(idx as nat),
{
    let mut label = "Material".to_owned();
    push_decimal(&mut label, idx);
    label
}

/// The label of the mesh at position `idx` of a scene: the word `Mesh`
/// followed by the decimal index.
pub fn mesh_label(idx: usize) -> (label: String)
    ensures
        label@ == "Mesh"@ + decimal(idx as nat),
{
    let mut label = "Mesh".to_owned();
    push_decimal(&mut label, idx);
    label
}

} // verus!
