//! The file names of the miniature pictures: the name under which a
//! monster's picture is looked for, and the name, made of a digest of the
//! picture, under which it is stored.

use crate::error::{CatalogError, ErrorKind, ErrorModel};
use crate::game::Content;
use crate::monster::{Monster, MonsterModel};
use crate::text::{chars_of, slice_of, string_of};
use vstd::prelude::*;

verus! {

/// Whether a character is alphanumeric: what `char::is_alphanumeric`
/// returns for it.
pub uninterp spec fn spec_alphanumeric(c: char) -> bool;

/// `char::is_alphanumeric` tells whether a character is a letter or a
/// number of Unicode; nothing more is said of it here than that it depends
/// on the character alone.
pub assume_specification[ char::is_alphanumeric ](c: char) -> (r: bool)
    ensures
        r == spec_alphanumeric(c),
;

/// The alphanumeric characters among the first `k` of a name, in order.
pub open spec fn spec_ident_upto(name: Seq<char>, k: int) -> Seq<char>
    decreases k,
{
    if k <= 0 {
        seq![]
    } else {
        let rest = spec_ident_upto(name, k - 1);
        if spec_alphanumeric(name[k - 1]) {
            rest.push(name[k - 1])
        } else {
            rest
        }
    }
}

/// The identifier of a name: its alphanumeric characters, in order.
pub open spec fn spec_name_to_ident(name: Seq<char>) -> Seq<char> {
    spec_ident_upto(name, name.len() as int)
}

/// The identifier of a name: its alphanumeric characters, in order.
pub fn name_to_ident(name: &str) -> (r: String)
    ensures
        r@ == spec_name_to_ident(name@),
{
    let chars = chars_of(name);
    let mut kept: Vec<char> = Vec::new();
    let mut k: usize = 0;
    while k < chars.len()
        invariant
            k <= chars@.len(),
            kept@ == spec_ident_upto(chars@, k as int),
        decreases chars@.len() - k,
    {
        if chars[k].is_alphanumeric() {
            kept.push(chars[k]);
        }
        k += 1;
    }
    string_of(kept.as_slice())
}

/// Whether a text starts with `The`.
pub open spec fn spec_starts_with_the(s: Seq<char>) -> bool {
    s.len() >= 3 && s[0] == 'T' && s[1] == 'h' && s[2] == 'e'
}

/// The number of characters that every leading `The` of a text takes up,
/// counted from `from`.
pub open spec fn spec_the_end(s: Seq<char>, from: int) -> int
    decreases s.len() - from,
{
    if 0 <= from && from + 3 <= s.len() && s[from] == 'T' && s[from + 1] == 'h' && s[from + 2]
        == 'e' {
        spec_the_end(s, from + 3)
    } else {
        from
    }
}

/// The prefix of a text for file names: its first two characters after
/// every leading `The`, or fewer where it has no two.
pub open spec fn spec_prefix_of(s: Seq<char>) -> Seq<char> {
    let from = spec_the_end(s, 0);
    if from + 2 <= s.len() {
        s.subrange(from, from + 2)
    } else if from <= s.len() {
        s.subrange(from, s.len() as int)
    } else {
        seq![]
    }
}

impl Content {
    /// The prefix of the pack's picture files: the first two characters of
    /// its identifier after every leading `The`.
    pub fn image_prefix(self) -> (r: String)
        ensures
            r@ == spec_prefix_of(self.spec_ident()),
    {
        let s = chars_of(self.ident());
        let n = s.len();
        let mut from: usize = 0;
        while n - from >= 3 && s[from] == 'T' && s[from + 1] == 'h' && s[from + 2] == 'e'
            invariant
                from <= n,
                n == s@.len(),
                spec_the_end(s@, 0) == spec_the_end(s@, from as int),
            decreases n - from,
        {
            from += 3;
        }
        let to = if n - from >= 2 {
            from + 2
        } else {
            n
        };
        string_of(slice_of(s.as_slice(), from, to).as_slice())
    }
}

/// The file name under which the picture of a monster is looked for: the
/// prefix of its pack, the identifier of its English name, and `.jpeg`.
/// A monster that another represents has no picture.
pub open spec fn spec_image_source(m: MonsterModel) -> Option<Seq<char>> {
    if m.miniature is None {
        Some(spec_prefix_of(m.content.spec_ident()) + spec_name_to_ident(m.name_en) + ".jpeg"@)
    } else {
        None
    }
}

/// The file name under which the picture of a monster is looked for.
pub fn image_source(m: &Monster) -> (r: Option<String>)
    ensures
        r is Some == spec_image_source(m@) is Some,
        r matches Some(name) ==> name@ == spec_image_source(m@)->0,
{
    if m.miniature.is_some() {
        return None;
    }
    let mut name = m.content.image_prefix();
    let ident = name_to_ident(m.name_en.as_str());
    name.append(ident.as_str());
    name.append(".jpeg");
    Some(name)
}

/// The MD5 digest of a sequence of bytes: what `md5::compute` returns for
/// it.
pub uninterp spec fn md5_of(data: Seq<u8>) -> Seq<u8>;

/// `md5::compute` on the bytes: the sixteen bytes of their MD5 digest,
/// which depend on the bytes alone.
#[verifier::external_body]
fn md5_digest(data: &[u8]) -> (r: [u8; 16])
    ensures
        r@ == md5_of(data@),
{
    md5::compute(data).0
}

/// The lower-case hexadecimal digit of a number below sixteen.
pub open spec fn spec_hex_digit(n: int) -> char {
    if n == 0 {
        '0'
    } else if n == 1 {
        '1'
    } else if n == 2 {
        '2'
    } else if n == 3 {
        '3'
    } else if n == 4 {
        '4'
    } else if n == 5 {
        '5'
    } else if n == 6 {
        '6'
    } else if n == 7 {
        '7'
    } else if n == 8 {
        '8'
    } else if n == 9 {
        '9'
    } else if n == 10 {
        'a'
    } else if n == 11 {
        'b'
    } else if n == 12 {
        'c'
    } else if n == 13 {
        'd'
    } else if n == 14 {
        'e'
    } else {
        'f'
    }
}

/// The lower-case hexadecimal digit of a number below sixteen.
pub fn hex_digit(n: u8) -> (r: char)
    requires
        n < 16,
    ensures
        r == spec_hex_digit(n as int),
{
    match n {
        0 => '0',
        1 => '1',
        2 => '2',
        3 => '3',
        4 => '4',
        5 => '5',
        6 => '6',
        7 => '7',
        8 => '8',
        9 => '9',
        10 => 'a',
        11 => 'b',
        12 => 'c',
        13 => 'd',
        14 => 'e',
        _ => 'f',
    }
}

/// The first `k` bytes in lower-case hexadecimal digits, two to a byte.
pub open spec fn spec_hex_upto(bytes: Seq<u8>, k: int) -> Seq<char>
    decreases k,
{
    if k <= 0 {
        seq![]
    } else {
        spec_hex_upto(bytes, k - 1).push(spec_hex_digit(bytes[k - 1] as int / 16)).push(
            spec_hex_digit(bytes[k - 1] as int % 16),
        )
    }
}

/// The number of digest bytes that make a file name.
pub const TARGET_BYTES: usize = 4;

/// The file name for a digest: its first four bytes in lower-case
/// hexadecimal digits, and `.jpeg`.
pub open spec fn spec_target_of(digest: Seq<u8>) -> Seq<char> {
    spec_hex_upto(digest, TARGET_BYTES as int) + ".jpeg"@
}

/// The file name for a digest.
pub fn target_of(digest: &[u8; 16]) -> (r: String)
    ensures
        r@ == spec_target_of(digest@),
{
    let mut digits: Vec<char> = Vec::new();
    let mut k: usize = 0;
    while k < TARGET_BYTES
        invariant
            k <= TARGET_BYTES,
            digits@ == spec_hex_upto(digest@, k as int),
        decreases TARGET_BYTES - k,
    {
        let b = digest[k];
        digits.push(hex_digit(b / 16));
        digits.push(hex_digit(b % 16));
        k += 1;
    }
    let mut name = string_of(digits.as_slice());
    name.append(".jpeg");
    name
}

/// The file name under which a picture is stored: that for the MD5 digest
/// of its bytes.
pub fn image_target(data: &[u8]) -> (r: String)
    ensures
        r@ == spec_target_of(md5_of(data@)),
{
    let digest = md5_digest(data);
    target_of(&digest)
}

/// The picture of a monster: the file name under which it is looked for,
/// and the file name under which it is stored.
#[derive(Clone, Debug, PartialEq, Eq)]
pub struct Image {
    pub source: String,
    pub target: String,
}

/// The mathematical content of an `Image`.
pub ghost struct ImageModel {
    pub source: Seq<char>,
    pub target: Seq<char>,
}

impl View for Image {
    type V = ImageModel;

    open spec fn view(&self) -> ImageModel {
        ImageModel { source: self.source@, target: self.target@ }
    }
}

/// The picture of a monster, given the bytes of the file found under its
/// source name; none where the monster has no picture of its own, or no
/// file was found.
pub open spec fn spec_image(m: MonsterModel, data: Option<Seq<u8>>) -> Option<ImageModel> {
    match (spec_image_source(m), data) {
        (Some(source), Some(bytes)) => Some(
            ImageModel { source, target: spec_target_of(md5_of(bytes)) },
        ),
        _ => None,
    }
}

/// The picture of a monster, given the bytes of the file found under its
/// source name.
pub fn image(m: &Monster, data: Option<&[u8]>) -> (r: Option<Image>)
    ensures
        match r {
            Some(i) => spec_image(
                m@,
                match data {
                    Some(d) => Some(d@),
                    None => None,
                },
            ) == Some(i@),
            None => spec_image(
                m@,
                match data {
                    Some(d) => Some(d@),
                    None => None,
                },
            ) is None,
        },
{
    let source = match image_source(m) {
        Some(s) => s,
        None => {
            return None;
        },
    };
    match data {
        Some(bytes) => Some(Image { source, target: image_target(bytes) }),
        None => None,
    }
}

/// The views of a list of pictures.
pub open spec fn image_views(images: Seq<Option<Image>>) -> Seq<Option<ImageModel>> {
    images.map_values(
        |i: Option<Image>|
            match i {
                Some(i) => Some(i@),
                None => None,
            },
    )
}

/// Whether the picture at `j` would be stored under the file name of one
/// before it.
pub open spec fn spec_clashes(images: Seq<Option<ImageModel>>, j: int) -> bool {
    images[j] is Some && exists|i: int|
        0 <= i < j && (#[trigger] images[i]) is Some && images[i]->0.target == images[j]->0.target
}

/// The first picture from position `k` on that would be stored under the
/// file name of one before it.
pub open spec fn spec_clash_from(images: Seq<Option<ImageModel>>, k: int) -> Option<int>
    decreases images.len() - k,
{
    if k >= images.len() {
        None
    } else if spec_clashes(images, k) {
        Some(k)
    } else {
        spec_clash_from(images, k + 1)
    }
}

/// What `spec_clash_from` finds clashes with a picture before it; where it
/// finds nothing, no picture from `k` on does.
pub proof fn lemma_clash_from(images: Seq<Option<ImageModel>>, k: int)
    requires
        0 <= k,
    ensures
        match spec_clash_from(images, k) {
            Some(j) => k <= j < images.len() && spec_clashes(images, j),
            None => forall|j: int| k <= j < images.len() ==> !#[trigger] spec_clashes(images, j),
        },
    decreases images.len() - k,
{
    if k < images.len() && !spec_clashes(images, k) {
        lemma_clash_from(images, k + 1);
    }
}

/// Checks that no two pictures would be stored under one file name.  The
/// error names the first picture that clashes with one before it, by its
/// position in the list and its file name.
pub fn check_images(images: &Vec<Option<Image>>) -> (r: Result<(), CatalogError>)
    ensures
        match r {
            Ok(_) => spec_clash_from(image_views(images@), 0) is None,
            Err(e) => spec_clash_from(image_views(images@), 0) matches Some(j) && e@ == (
            ErrorModel {
                kind: ErrorKind::DuplicateImage,
                line: j,
                field: image_views(images@)[j]->0.target,
            }),
        },
        r is Ok <==> forall|j: int|
            0 <= j < images@.len() ==> !#[trigger] spec_clashes(image_views(images@), j),
{
    proof {
        lemma_clash_from(image_views(images@), 0);
    }
    let ghost views = image_views(images@);
    let n = images.len();
    let mut j: usize = 0;
    while j < n
        invariant
            j <= n,
            n == images@.len(),
            views == image_views(images@),
            spec_clash_from(views, 0) == spec_clash_from(views, j as int),
        decreases n - j,
    {
        match &images[j] {
            None => {
                assert(views[j as int] is None);
            },
            Some(image) => {
                assert(views[j as int] == Some(image@));
                let mut i: usize = 0;
                while i < j
                    invariant
                        i <= j < n,
                        n == images@.len(),
                        views == image_views(images@),
                        views[j as int] == Some(image@),
                        spec_clash_from(views, 0) == spec_clash_from(views, j as int),
                        forall|k: int|
                            0 <= k < i ==> !((#[trigger] views[k]) is Some && views[k]->0.target
                                == image@.target),
                    decreases j - i,
                {
                    let clash = match &images[i] {
                        None => false,
                        Some(other) => other.target == image.target,
                    };
                    assert(views[i as int] == match images@[i as int] {
                        Some(o) => Some(o@),
                        None => None,
                    });
                    if clash {
                        assert(spec_clashes(views, j as int));
                        return Err(
                            CatalogError::new(ErrorKind::DuplicateImage, j, image.target.clone()),
                        );
                    }
                    i += 1;
                }
            },
        }
        j += 1;
    }
    Ok(())
}

} // verus!
