//! Image identity: a display name plus a content digest, where only the
//! digest (with its algorithm prefix stripped) determines identity.

use vstd::prelude::*;
use vstd::seq_lib::*;

verus! {

/// Mathematical model of an image: its display name and its normalized
/// content digest.
pub ghost struct ImageModel {
    pub name: Seq<char>,
    pub id: Seq<char>,
}

/// The stored identity of a digest string: everything after the first
/// colon, so that an algorithm prefix such as `sha256:` is stripped
/// and nothing else is lost.
pub open spec fn normalize_digest(s: Seq<char>) -> Seq<char>
    decreases s.len(),
{
    if s.len() == 0 {
        Seq::empty()
    } else if s[0] == ':' {
        s.skip(1)
    } else {
        normalize_digest(s.skip(1))
    }
}

/// `s` holds at least one colon, so a digest-qualified identifier can
/// be split into prefix and digest.
pub open spec fn has_colon(s: Seq<char>) -> bool {
    exists|k: int| 0 <= k < s.len() && s[k] == ':'
}

/// Strip a digest-qualified identifier down to its stored identity.
pub fn normalize_digest_str(d: &str) -> (r: String)
    requires
        has_colon(d@),
    ensures
        r@ == normalize_digest(d@),
{
    let n = d.unicode_len();
    let mut ci: usize = 0;
    proof {
        assert_seqs_equal!(d@.skip(0) == d@);
    }
    while d.get_char(ci) != ':'
        invariant
            d@.len() == n,
            0 <= ci < n,
            exists|k: int| ci <= k < n && d@[k] == ':',
            normalize_digest(d@) == normalize_digest(d@.skip(ci as int)),
        decreases n - ci,
    {
        proof {
            assert(d@.skip(ci as int)[0] == d@[ci as int]);
            assert_seqs_equal!(d@.skip(ci as int).skip(1) == d@.skip(ci + 1));
            assert(normalize_digest(d@.skip(ci as int)) == normalize_digest(
                d@.skip(ci + 1),
            ));
            let k = choose|k: int| ci <= k < n && d@[k] == ':';
            assert(ci + 1 <= k < n && d@[k] == ':');
        }
        ci += 1;
    }
    proof {
        assert(d@.skip(ci as int)[0] == d@[ci as int]);
        assert_seqs_equal!(d@.skip(ci as int).skip(1) == d@.skip(ci + 1));
        assert(normalize_digest(d@) == d@.skip(ci + 1));
    }
    let seg = d.substring_char(ci + 1, n);
    proof {
        assert_seqs_equal!(d@.subrange(ci + 1, n as int) == d@.skip(ci + 1));
    }
    seg.to_owned()
}

/// One distinct container image observed on some host.
pub struct Image {
    pub name: String,
    pub id: String,
}

impl View for Image {
    type V = ImageModel;

    open spec fn view(&self) -> ImageModel {
        ImageModel { name: self.name@, id: self.id@ }
    }
}

/// The model an image built from a raw display name and a
/// digest-qualified identifier has.
pub open spec fn raw_model(name: Seq<char>, digest: Seq<char>) -> ImageModel {
    ImageModel { name: name, id: normalize_digest(digest) }
}

impl Image {
    /// Build an image from a display name and a digest-qualified
    /// identifier such as `sha256:abc123`, stripping the prefix.
    pub fn new(name: &str, id: &str) -> (img: Image)
        requires
            has_colon(id@),
        ensures
            img@ == raw_model(name@, id@),
    {
        Image { name: name.to_owned(), id: normalize_digest_str(id) }
    }
}

impl Clone for Image {
    /// Cloning keeps both the display name and the identity.
    fn clone(&self) -> (r: Image)
        ensures
            r@ == self@,
    {
        Image { name: self.name.clone(), id: self.id.clone() }
    }
}

impl PartialEq for Image {
    /// Two images are the same exactly when their normalized digests
    /// match; the display name carries no identity.
    fn eq(&self, other: &Image) -> bool {
        self.id == other.id
    }
}

impl Eq for Image {

}

impl vstd::std_specs::cmp::PartialEqSpecImpl for Image {
    open spec fn obeys_eq_spec() -> bool {
        true
    }

    open spec fn eq_spec(&self, other: &Image) -> bool {
        self.id@ == other.id@
    }
}

} // verus!
