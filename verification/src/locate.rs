//! Pairing a `.res` summary with its sibling `.bin` dataset.
//!
//! Given the base name of the summary and the `.bin` entries of its
//! directory, the dataset is chosen by exact base-name match first, then
//! by the `ResumenRCC_` convention, and otherwise the first entry in
//! listing order; with no entries the hourly detail is simply absent.

use vstd::prelude::*;

use vstd::string::StringExecFns;

verus! {

/// Whether some listed name reads `buscado`.
pub open spec fn contiene(nombres: Seq<String>, buscado: Seq<char>) -> bool {
    exists|i: int| 0 <= i < nombres.len() && (#[trigger] nombres[i])@ == buscado
}

/// Whether the list holds the name, executable form.
fn contiene_e(nombres: &Vec<String>, buscado: &String) -> (r: bool)
    ensures
        r == contiene(nombres@, buscado@),
{
    let mut j: usize = 0;
    while j < nombres.len()
        invariant
            0 <= j <= nombres@.len(),
            forall|k: int| 0 <= k < j ==> (#[trigger] nombres@[k])@ != buscado@,
        decreases nombres@.len() - j,
    {
        if nombres[j] == *buscado {
            return true;
        }
        j += 1;
    }
    false
}

/// Choose the `.bin` file that pairs with a summary whose base name is
/// `stem`, among the `.bin` entries of the summary's directory, exactly:
/// first `stem.bin`, then `ResumenRCC_stem.bin`, otherwise the first
/// entry in listing order; nothing when the directory has no entries.
pub fn find_bin(stem: &str, binfiles: &Vec<String>) -> (r: Option<String>)
    ensures
        ({
            let obj1 = stem@ + ".bin"@;
            let obj2 = "ResumenRCC_"@ + stem@ + ".bin"@;
            if contiene(binfiles@, obj1) {
                r matches Some(s) && s@ == obj1
            } else if contiene(binfiles@, obj2) {
                r matches Some(s) && s@ == obj2
            } else if binfiles@.len() > 0 {
                r matches Some(s) && s@ == binfiles@[0]@
            } else {
                r is None
            }
        }),
{
    let obj1: String = stem.to_owned().concat(".bin");
    let obj2: String = "ResumenRCC_".to_owned().concat(stem).concat(".bin");
    if contiene_e(binfiles, &obj1) {
        return Some(obj1);
    }
    if contiene_e(binfiles, &obj2) {
        return Some(obj2);
    }
    if binfiles.len() > 0 {
        return Some(binfiles[0].clone());
    }
    None
}

} // verus!
