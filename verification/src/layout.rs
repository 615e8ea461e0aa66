//! Where a frame lives in a store: the key of a frame, the name of a camera,
//! and the paths of a store that is a directory tree.

use vstd::prelude::*;
use vstd::string::StringExecFns;

verus! {

/// The character that stands for a digit.
pub open spec fn digit(value: nat) -> char {
    if value == 0 {
        '0'
    } else if value == 1 {
        '1'
    } else if value == 2 {
        '2'
    } else if value == 3 {
        '3'
    } else if value == 4 {
        '4'
    } else if value == 5 {
        '5'
    } else if value == 6 {
        '6'
    } else if value == 7 {
        '7'
    } else if value == 8 {
        '8'
    } else {
        '9'
    }
}

/// Whether a character is one of the ten digits.
pub open spec fn is_digit(c: char) -> bool {
    exists|value: nat| value < 10 && c == #[trigger] digit(value)
}

/// The digit that a character stands for.
pub open spec fn digit_value(c: char) -> nat {
    if c == '1' {
        1
    } else if c == '2' {
        2
    } else if c == '3' {
        3
    } else if c == '4' {
        4
    } else if c == '5' {
        5
    } else if c == '6' {
        6
    } else if c == '7' {
        7
    } else if c == '8' {
        8
    } else if c == '9' {
        9
    } else {
        0
    }
}

/// A number in decimal, without padding.
pub open spec fn decimal(n: nat) -> Seq<char>
    decreases n,
{
    if n < 10 {
        seq![digit(n)]
    } else {
        decimal(n / 10).push(digit(n % 10))
    }
}

/// The number that a string of digits reads as.
pub open spec fn decimal_value(text: Seq<char>) -> nat
    decreases text.len(),
{
    if text.len() == 0 {
        0
    } else {
        decimal_value(text.drop_last()) * 10 + digit_value(text.last())
    }
}

/// The key of frame `index` within its camera: the index in decimal, then
/// `.jpg`.
pub open spec fn frame_key_of(index: u64) -> Seq<char> {
    decimal(index as nat) + ".jpg"@
}

/// The name of camera number `position`: `camera`, then the number in
/// decimal.
pub open spec fn camera_name_of(position: usize) -> Seq<char> {
    "camera"@ + decimal(position as nat)
}

/// The directory of `camera` in a store rooted at `root`.
pub open spec fn camera_dir_of(root: Seq<char>, camera: Seq<char>) -> Seq<char> {
    root + "/"@ + camera
}

/// The file of frame `index` of `camera` in a store rooted at `root`.
pub open spec fn frame_path_of(root: Seq<char>, camera: Seq<char>, index: u64) -> Seq<char> {
    camera_dir_of(root, camera) + "/"@ + frame_key_of(index)
}

fn digit_text(value: u64) -> (text: &'static str)
    requires
        value < 10,
    ensures
        text@ == seq![digit(value as nat)],
{
    proof {
        reveal_strlit("0");
        reveal_strlit("1");
        reveal_strlit("2");
        reveal_strlit("3");
        reveal_strlit("4");
        reveal_strlit("5");
        reveal_strlit("6");
        reveal_strlit("7");
        reveal_strlit("8");
        reveal_strlit("9");
    }
    let text = if value == 0 {
        "0"
    } else if value == 1 {
        "1"
    } else if value == 2 {
        "2"
    } else if value == 3 {
        "3"
    } else if value == 4 {
        "4"
    } else if value == 5 {
        "5"
    } else if value == 6 {
        "6"
    } else if value == 7 {
        "7"
    } else if value == 8 {
        "8"
    } else {
        "9"
    };
    assert(text@ =~= seq![digit(value as nat)]);
    text
}

fn push_decimal(text: &mut String, n: u64)
    ensures
        final(text)@ == old(text)@ + decimal(n as nat),
    decreases n,
{
    if n >= 10 {
        push_decimal(text, n / 10);
    }
    text.append(digit_text(n % 10));
    assert(text@ =~= old(text)@ + decimal(n as nat));
}

/// The key of frame `index` within its camera.
pub fn frame_key(index: u64) -> (key: String)
    ensures
        key@ == frame_key_of(index),
{
    let mut key = String::new();
    push_decimal(&mut key, index);
    key.append(".jpg");
    assert(key@ =~= frame_key_of(index));
    key
}

/// The name of camera number `position`.
pub fn camera_name(position: usize) -> (name: String)
    ensures
        name@ == camera_name_of(position),
{
    let mut name = "camera".to_owned();
    push_decimal(&mut name, position as u64);
    name
}

/// The directory of `camera` in a store rooted at `root`.
pub fn camera_dir(root: &str, camera: &str) -> (dir: String)
    ensures
        dir@ == camera_dir_of(root@, camera@),
{
    let mut dir = root.to_owned();
    dir.append("/");
    dir.append(camera);
    dir
}

/// The file of frame `index` of `camera` in a store rooted at `root`.
pub fn frame_path(root: &str, camera: &str, index: u64) -> (path: String)
    ensures
        path@ == frame_path_of(root@, camera@, index),
{
    let mut path = camera_dir(root, camera);
    path.append("/");
    push_decimal(&mut path, index);
    path.append(".jpg");
    assert(path@ =~= frame_path_of(root@, camera@, index));
    path
}

/// A number in decimal reads as that number.
pub proof fn lemma_decimal_value(n: nat)
    ensures
        decimal_value(decimal(n)) == n,
    decreases n,
{
    let text = decimal(n);
    if n >= 10 {
        lemma_decimal_value(n / 10);
        assert(text.drop_last() =~= decimal(n / 10));
        assert(text.last() == digit(n % 10));
        assert(digit_value(digit(n % 10)) == n % 10);
    } else {
        assert(text.drop_last() =~= Seq::<char>::empty());
        assert(decimal_value(text.drop_last()) == 0);
        assert(text.last() == digit(n));
        assert(digit_value(digit(n)) == n);
    }
}

/// Two numbers that are written alike are one number.
pub proof fn lemma_decimal_injective(a: nat, b: nat)
    requires
        decimal(a) == decimal(b),
    ensures
        a == b,
{
    lemma_decimal_value(a);
    lemma_decimal_value(b);
}

/// A number in decimal has at least one character, digits only, and no
/// leading zero but for the number 0 itself.
pub proof fn lemma_decimal_shape(n: nat)
    ensures
        decimal(n).len() >= 1,
        forall|i: int| 0 <= i < decimal(n).len() ==> is_digit(#[trigger] decimal(n)[i]),
        n > 0 ==> decimal(n)[0] != '0',
        n == 0 ==> decimal(n) == seq!['0'],
    decreases n,
{
    if n >= 10 {
        lemma_decimal_shape(n / 10);
        assert(is_digit(digit(n % 10)));
        assert forall|i: int| 0 <= i < decimal(n).len() implies is_digit(
            #[trigger] decimal(n)[i],
        ) by {
            if i < decimal(n / 10).len() {
                assert(decimal(n)[i] == decimal(n / 10)[i]);
            }
        }
    } else {
        assert(is_digit(digit(n)));
    }
}

/// Two frames of a camera have one key only if they have one index.
pub proof fn lemma_frame_key_injective(a: u64, b: u64)
    requires
        frame_key_of(a) == frame_key_of(b),
    ensures
        a == b,
{
    let left = decimal(a as nat);
    let right = decimal(b as nat);
    let ext = ".jpg"@;
    assert(left.len() == right.len()) by {
        assert((left + ext).len() == (right + ext).len());
    }
    assert forall|i: int| 0 <= i < left.len() implies left[i] == right[i] by {
        assert((left + ext)[i] == (right + ext)[i]);
    }
    assert(left =~= right);
    lemma_decimal_injective(a as nat, b as nat);
}

/// Two cameras have one name only if they have one number.
pub proof fn lemma_camera_name_injective(a: usize, b: usize)
    requires
        camera_name_of(a) == camera_name_of(b),
    ensures
        a == b,
{
    let left = decimal(a as nat);
    let right = decimal(b as nat);
    let stem = "camera"@;
    assert(left.len() == right.len()) by {
        assert((stem + left).len() == (stem + right).len());
    }
    assert forall|i: int| 0 <= i < left.len() implies left[i] == right[i] by {
        assert((stem + left)[stem.len() + i] == (stem + right)[stem.len() + i]);
    }
    assert(left =~= right);
    lemma_decimal_injective(a as nat, b as nat);
}

/// No key of a frame holds the separator of paths.
pub proof fn lemma_frame_key_has_no_separator(index: u64)
    ensures
        forall|i: int| 0 <= i < frame_key_of(index).len() ==> #[trigger] frame_key_of(index)[i] != '/',
{
    reveal_strlit(".jpg");
    lemma_decimal_shape(index as nat);
    let number = decimal(index as nat);
    assert forall|i: int| 0 <= i < frame_key_of(index).len() implies #[trigger] frame_key_of(
        index,
    )[i] != '/' by {
        if i < number.len() {
            assert(is_digit(number[i]));
        }
    }
}

/// In a store that is a directory tree, two frames share a file only if they
/// are one frame: the same camera and the same index.
pub proof fn lemma_frame_path_injective(
    root: Seq<char>,
    camera_a: Seq<char>,
    index_a: u64,
    camera_b: Seq<char>,
    index_b: u64,
)
    requires
        frame_path_of(root, camera_a, index_a) == frame_path_of(root, camera_b, index_b),
    ensures
        camera_a == camera_b,
        index_a == index_b,
{
    reveal_strlit("/");
    lemma_frame_key_has_no_separator(index_a);
    lemma_frame_key_has_no_separator(index_b);
    let key_a = frame_key_of(index_a);
    let key_b = frame_key_of(index_b);
    let path_a = frame_path_of(root, camera_a, index_a);
    let path_b = frame_path_of(root, camera_b, index_b);
    let base: int = root.len() as int + 1;
    let len_a: int = camera_a.len() as int;
    let len_b: int = camera_b.len() as int;
    assert(path_a.len() == base + camera_a.len() + 1 + key_a.len());
    assert(path_b.len() == base + camera_b.len() + 1 + key_b.len());
    assert(path_a[base + len_a] == '/');
    assert(path_b[base + len_b] == '/');
    if len_a > len_b {
        let at = len_a - len_b - 1;
        assert(path_b[base + len_a] == key_b[at]);
    }
    if len_b > len_a {
        let at = len_b - len_a - 1;
        assert(path_a[base + len_b] == key_a[at]);
    }
    assert forall|i: int| 0 <= i < camera_a.len() implies camera_a[i] == camera_b[i] by {
        assert(path_a[base + i] == camera_a[i]);
        assert(path_b[base + i] == camera_b[i]);
    }
    assert(camera_a =~= camera_b);
    assert forall|i: int| 0 <= i < key_a.len() implies key_a[i] == key_b[i] by {
        assert(path_a[base + len_a + 1 + i] == key_a[i]);
        assert(path_b[base + len_b + 1 + i] == key_b[i]);
    }
    assert(key_a =~= key_b);
    lemma_frame_key_injective(index_a, index_b);
}

} // verus!
