//! File-name handling: stems, extensions, recognized inputs, target names and
//! the interface identifier derived from a base name.

use vstd::prelude::*;

verus! {

/// A decimal digit.
pub open spec fn is_digit(c: char) -> bool {
    '0' <= c && c <= '9'
}

/// The text with every decimal digit removed, order kept.
pub open spec fn strip_digits(s: Seq<char>) -> Seq<char>
    decreases s.len(),
{
    if s.len() == 0 {
        s
    } else if is_digit(s.last()) {
        strip_digits(s.drop_last())
    } else {
        strip_digits(s.drop_last()).push(s.last())
    }
}

/// Index of the last '.' in `s`, or -1 when there is none.
pub open spec fn last_dot(s: Seq<char>) -> int
    decreases s.len(),
{
    if s.len() == 0 {
        -1
    } else if s.last() == '.' {
        s.len() - 1
    } else {
        last_dot(s.drop_last())
    }
}

/// A file name has an extension when it holds a '.' past its first character.
pub open spec fn has_extension(name: Seq<char>) -> bool {
    last_dot(name) > 0
}

/// The file name without its extension.
pub open spec fn stem(name: Seq<char>) -> Seq<char> {
    if has_extension(name) {
        name.take(last_dot(name))
    } else {
        name
    }
}

/// The text after the last '.', when the name has an extension.
pub open spec fn extension(name: Seq<char>) -> Seq<char> {
    name.skip(last_dot(name) + 1)
}

/// The two spellings of the source format's extension.
pub open spec fn is_source_extension(ext: Seq<char>) -> bool {
    ext == seq!['i', 'd', 'l'] || ext == seq!['w', 'e', 'b', 'i', 'd', 'l']
}

/// A file that the batch converts.
pub open spec fn is_recognized(name: Seq<char>) -> bool {
    has_extension(name) && is_source_extension(extension(name))
}

/// The target format's extension.
pub open spec fn target_extension() -> Seq<char> {
    seq!['w', 'i', 't']
}

/// The output file name: the stem with the target extension.
pub open spec fn target_name(name: Seq<char>) -> Seq<char> {
    stem(name).push('.') + target_extension()
}

/// The suffix appended to every interface identifier.
pub open spec fn identifier_suffix() -> Seq<char> {
    seq!['-', 'i', 'n', 't', 'e', 'r', 'f', 'a', 'c', 'e']
}

/// What convert_case makes of a text when asked for kebab case.
pub uninterp spec fn kebab_of(s: Seq<char>) -> Seq<char>;

/// The identifier for a text already in kebab case.
pub open spec fn identifier_of_kebab(k: Seq<char>) -> Seq<char> {
    k + identifier_suffix()
}

/// The interface identifier of a file name.
pub open spec fn derived_identifier(name: Seq<char>) -> Seq<char> {
    identifier_of_kebab(kebab_of(strip_digits(stem(name))))
}

/// The last dot lies inside the text and is a '.'.
pub proof fn lemma_last_dot_bounds(s: Seq<char>)
    ensures
        -1 <= last_dot(s) < s.len(),
        last_dot(s) >= 0 ==> s[last_dot(s)] == '.',
    decreases s.len(),
{
    if s.len() > 0 && s.last() != '.' {
        lemma_last_dot_bounds(s.drop_last());
    }
}

/// No digit is left after digits are removed.
pub proof fn lemma_strip_digits_no_digit(s: Seq<char>)
    ensures
        forall|i: int| 0 <= i < strip_digits(s).len() ==> !is_digit(#[trigger] strip_digits(s)[i]),
    decreases s.len(),
{
    if s.len() > 0 {
        let t = strip_digits(s.drop_last());
        lemma_strip_digits_no_digit(s.drop_last());
        assert forall|i: int| 0 <= i < strip_digits(s).len() implies !is_digit(
            #[trigger] strip_digits(s)[i],
        ) by {
            if !is_digit(s.last()) && i < t.len() {
                assert(strip_digits(s)[i] == t[i]);
            }
        }
    }
}

/// Position of the last '.' in `name`, if any.
fn find_last_dot(name: &Vec<char>) -> (r: Option<usize>)
    ensures
        match r {
            Some(k) => k == last_dot(name@),
            None => last_dot(name@) == -1,
        },
{
    let mut i: usize = name.len();
    assert(name@.take(i as int) =~= name@);
    while i > 0
        invariant
            i <= name@.len(),
            last_dot(name@) == last_dot(name@.take(i as int)),
        decreases i,
    {
        let c = name[i - 1];
        if c == '.' {
            assert(name@.take(i as int).last() == '.');
            return Some(i - 1);
        }
        assert(name@.take(i as int).drop_last() =~= name@.take(i - 1));
        i = i - 1;
    }
    None
}

/// The file name without its extension.
pub fn file_stem(name: &Vec<char>) -> (r: Vec<char>)
    ensures
        r@ == stem(name@),
{
    let k = find_last_dot(name);
    proof { lemma_last_dot_bounds(name@); }
    let end: usize = match k {
        Some(k) if k > 0 => k,
        _ => name.len(),
    };
    let mut r: Vec<char> = Vec::new();
    let mut i: usize = 0;
    while i < end
        invariant
            end <= name@.len(),
            i <= end,
            r@ == name@.take(i as int),
        decreases end - i,
    {
        r.push(name[i]);
        i = i + 1;
        assert(r@ =~= name@.take(i as int));
    }
    assert(name@.take(name@.len() as int) =~= name@);
    r
}

/// Whether the file name carries one of the source format's extensions.
pub fn is_recognized_name(name: &Vec<char>) -> (r: bool)
    ensures
        r == is_recognized(name@),
{
    let k = find_last_dot(name);
    proof { lemma_last_dot_bounds(name@); }
    let s: usize = match k {
        Some(j) if j > 0 && j < name.len() => {
            j + 1
        },
        _ => { return false; },
    };
    let n = name.len() - s;
    let ghost ext = extension(name@);
    assert(ext.len() == n);
    assert(forall|i: int| 0 <= i < n ==> ext[i] == name@[s + i]);
    if n == 3 {
        let r = name[s] == 'i' && name[s + 1] == 'd' && name[s + 2] == 'l';
        assert(r ==> ext =~= seq!['i', 'd', 'l']);
        assert(ext =~= seq!['i', 'd', 'l'] ==> r);
        r
    } else if n == 6 {
        let r = name[s] == 'w' && name[s + 1] == 'e' && name[s + 2] == 'b' && name[s + 3] == 'i'
            && name[s + 4] == 'd' && name[s + 5] == 'l';
        assert(r ==> ext =~= seq!['w', 'e', 'b', 'i', 'd', 'l']);
        assert(ext =~= seq!['w', 'e', 'b', 'i', 'd', 'l'] ==> r);
        r
    } else {
        assert(seq!['i', 'd', 'l'].len() == 3);
        assert(seq!['w', 'e', 'b', 'i', 'd', 'l'].len() == 6);
        false
    }
}

/// The output file name for `name`: its stem with the target extension.
pub fn target_file_name(name: &Vec<char>) -> (r: Vec<char>)
    ensures
        r@ == target_name(name@),
{
    let mut r = file_stem(name);
    r.push('.');
    r.push('w');
    r.push('i');
    r.push('t');
    assert(r@ =~= target_name(name@));
    r
}

/// The text with every decimal digit removed.
pub fn remove_digits(s: &Vec<char>) -> (r: Vec<char>)
    ensures
        r@ == strip_digits(s@),
{
    let mut r: Vec<char> = Vec::new();
    let mut i: usize = 0;
    while i < s.len()
        invariant
            i <= s@.len(),
            r@ == strip_digits(s@.take(i as int)),
        decreases s@.len() - i,
    {
        let c = s[i];
        assert(s@.take(i + 1).drop_last() =~= s@.take(i as int));
        if !('0' <= c && c <= '9') {
            r.push(c);
        }
        i = i + 1;
    }
    assert(s@.take(s@.len() as int) =~= s@);
    r
}

/// Relies on convert_case's `Casing::to_case` with `Case::Kebab`: its result
/// depends on the text alone.
#[verifier::external_body]
fn to_kebab(s: &Vec<char>) -> (r: Vec<char>)
    ensures
        r@ == kebab_of(s@),
{
    let text: String = s.iter().collect();
    convert_case::Casing::to_case(&text, convert_case::Case::Kebab).chars().collect()
}

/// The identifier for a text already in kebab case: the text followed by the
/// interface suffix.
pub fn identifier_from_kebab(kebab: &Vec<char>) -> (r: Vec<char>)
    ensures
        r@ == identifier_of_kebab(kebab@),
{
    let mut r = kebab.clone();
    let suffix = vec!['-', 'i', 'n', 't', 'e', 'r', 'f', 'a', 'c', 'e'];
    let mut i: usize = 0;
    while i < suffix.len()
        invariant
            suffix@ == identifier_suffix(),
            i <= suffix@.len(),
            r@ == kebab@ + suffix@.take(i as int),
        decreases suffix@.len() - i,
    {
        r.push(suffix[i]);
        i = i + 1;
        assert(r@ =~= kebab@ + suffix@.take(i as int));
    }
    assert(suffix@.take(suffix@.len() as int) =~= suffix@);
    r
}

/// The interface identifier of a file name: its stem without digits, in
/// kebab case, followed by the interface suffix.
pub fn derive_identifier(name: &Vec<char>) -> (r: Vec<char>)
    ensures
        r@ == derived_identifier(name@),
{
    let s = file_stem(name);
    let plain = remove_digits(&s);
    let k = to_kebab(&plain);
    identifier_from_kebab(&k)
}

/// The identifier depends on the digit-free stem alone, so equal names, and
/// names whose stems differ only in digits or extension, share it; the text
/// handed to the kebab conversion holds no digit; and every identifier ends
/// with the interface suffix.
pub proof fn identifier_law(a: Seq<char>, b: Seq<char>)
    ensures
        a == b ==> derived_identifier(a) == derived_identifier(b),
        strip_digits(stem(a)) == strip_digits(stem(b)) ==> derived_identifier(a)
            == derived_identifier(b),
        forall|i: int|
            0 <= i < strip_digits(stem(a)).len() ==> !is_digit(
                #[trigger] strip_digits(stem(a))[i],
            ),
        derived_identifier(a).len() >= identifier_suffix().len(),
        derived_identifier(a).skip(derived_identifier(a).len() - identifier_suffix().len())
            == identifier_suffix(),
{
    lemma_strip_digits_no_digit(stem(a));
    let d = derived_identifier(a);
    assert(d.skip(d.len() - identifier_suffix().len()) =~= identifier_suffix());
}

} // verus!
