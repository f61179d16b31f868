//! Version information for the app.
//!
//! The package version is fixed here; what the build machine knows (the
//! commit, the build time, the enabled features) is handed in as a
//! [`BuildInfo`].
use vstd::prelude::*;
use crate::text::{byte_len, lemma_byte_len_at_least_char_len, lemma_byte_len_concat, lemma_byte_len_ascii};

verus! {

/// The package version of the app.
pub const CARGO_PKG_VERSION: &'static str = "0.1.0";

/// What the build recorded about itself.
pub struct BuildInfo {
    /// The (short) SHA of the commit that was built.
    pub git_sha: String,
    /// When the build ran.
    pub build_timestamp: String,
    /// The cargo features the build enabled.
    pub cargo_features: String,
}

/// `{version} ({sha})`
pub open spec fn spec_short_version(git_sha: Seq<char>) -> Seq<char> {
    CARGO_PKG_VERSION@ + " ("@ + git_sha + ")"@
}

/// The four labelled lines of the long version.
pub open spec fn spec_long_version(git_sha: Seq<char>, timestamp: Seq<char>, features: Seq<char>) -> Seq<char> {
    "Version: "@ + CARGO_PKG_VERSION@ + "\n"@
        + "Commit SHA: "@ + git_sha + "\n"@
        + "Build Timestamp: "@ + timestamp + "\n"@
        + "Build Features: "@ + features
}

/// `app/v{version}`
pub open spec fn spec_default_extradata() -> Seq<char> {
    "app/v"@ + CARGO_PKG_VERSION@
}

impl BuildInfo {
    /// The short version information, for example `0.1.0 (defa64b2)`.
    pub fn short_version(&self) -> (res: String)
        ensures
            res@ == spec_short_version(self.git_sha@),
    {
        let mut s = String::from_str(CARGO_PKG_VERSION);
        s.append(" (");
        s.append(self.git_sha.as_str());
        s.append(")");
        s
    }

    /// The long version information: version, commit, build time and
    /// build features, one per line.
    pub fn long_version(&self) -> (res: String)
        ensures
            res@ == spec_long_version(self.git_sha@, self.build_timestamp@, self.cargo_features@),
    {
        let mut s = String::from_str("Version: ");
        s.append(CARGO_PKG_VERSION);
        s.append("\n");
        s.append("Commit SHA: ");
        s.append(self.git_sha.as_str());
        s.append("\n");
        s.append("Build Timestamp: ");
        s.append(self.build_timestamp.as_str());
        s.append("\n");
        s.append("Build Features: ");
        s.append(self.cargo_features.as_str());
        s
    }
}

/// The default extradata used for payload building: `app/v{version}`.
/// It always fits in 32 bytes.
pub fn default_extradata() -> (res: String)
    ensures
        res@ == spec_default_extradata(),
        byte_len(res@) <= 32,
{
    let mut s = String::from_str("app/v");
    s.append(CARGO_PKG_VERSION);
    proof {
        lemma_extradata_fits();
    }
    s
}

/// The extradata is ten ASCII characters, so it fits in 32 bytes.
pub proof fn lemma_extradata_fits()
    ensures
        byte_len(spec_default_extradata()) == 10,
{
    reveal_strlit("app/v");
    reveal_strlit("0.1.0");
    let s = spec_default_extradata();
    assert(s.len() == 10);
    assert(vstd::utf8::is_ascii_chars(s)) by {
        assert forall|i: int| 0 <= i < s.len() implies '\0' <= #[trigger] s[i] <= '\u{7f}' by {
            if i < 5 {
                assert(s[i] == "app/v"@[i]);
            } else {
                assert(s[i] == "0.1.0"@[i - 5]);
            }
        }
    }
    lemma_byte_len_ascii(s);
}

/// The short version takes eight bytes besides the commit SHA: it fits in
/// 32 bytes exactly when the SHA takes at most 24.
pub proof fn lemma_short_version_byte_len(git_sha: Seq<char>)
    ensures
        byte_len(spec_short_version(git_sha)) == byte_len(git_sha) + 8,
        byte_len(spec_short_version(git_sha)) <= 32 <==> byte_len(git_sha) <= 24,
{
    let v = CARGO_PKG_VERSION@;
    let open = " ("@;
    let close = ")"@;
    reveal_strlit("0.1.0");
    reveal_strlit(" (");
    reveal_strlit(")");
    assert(vstd::utf8::is_ascii_chars(v)) by {
        assert forall|i: int| 0 <= i < v.len() implies '\0' <= #[trigger] v[i] <= '\u{7f}' by {
            assert(v =~= seq!['0', '.', '1', '.', '0']);
        }
    }
    assert(vstd::utf8::is_ascii_chars(open)) by {
        assert(open =~= seq![' ', '(']);
    }
    assert(vstd::utf8::is_ascii_chars(close)) by {
        assert(close =~= seq![')']);
    }
    lemma_byte_len_ascii(v);
    lemma_byte_len_ascii(open);
    lemma_byte_len_ascii(close);
    lemma_byte_len_concat(v, open);
    lemma_byte_len_concat(v + open, git_sha);
    lemma_byte_len_concat(v + open + git_sha, close);
}

/// The long version is at least 32 bytes long, whatever the build recorded.
pub proof fn lemma_long_version_at_least_32_bytes(git_sha: Seq<char>, timestamp: Seq<char>, features: Seq<char>)
    ensures
        byte_len(spec_long_version(git_sha, timestamp, features)) >= 32,
{
    let s = spec_long_version(git_sha, timestamp, features);
    reveal_strlit("Version: ");
    reveal_strlit("Commit SHA: ");
    reveal_strlit("Build Timestamp: ");
    reveal_strlit("Build Features: ");
    assert(s.len() >= 32);
    lemma_byte_len_at_least_char_len(s);
}

/// The extradata is `app/v` followed by the package version.
pub proof fn lemma_extradata_parts()
    ensures
        spec_default_extradata().len() == 5 + CARGO_PKG_VERSION@.len(),
        spec_default_extradata().subrange(0, 5) == seq!['a', 'p', 'p', '/', 'v'],
        spec_default_extradata().subrange(5, spec_default_extradata().len() as int) == CARGO_PKG_VERSION@,
{
    reveal_strlit("app/v");
    let s = spec_default_extradata();
    assert(s.subrange(0, 5) =~= seq!['a', 'p', 'p', '/', 'v']);
    assert(s.subrange(5, s.len() as int) =~= CARGO_PKG_VERSION@);
}

/// The short version is the package version, ` (`, the whole commit SHA
/// and `)`, in that order.
pub proof fn lemma_short_version_parts(git_sha: Seq<char>)
    ensures
        ({
            let s = spec_short_version(git_sha);
            let v = CARGO_PKG_VERSION@.len() as int;
            &&& s.len() == v + git_sha.len() + 3
            &&& s.subrange(0, v) == CARGO_PKG_VERSION@
            &&& s[v] == ' '
            &&& s[v + 1] == '('
            &&& s.subrange(v + 2, v + 2 + git_sha.len()) == git_sha
            &&& s[s.len() - 1] == ')'
        }),
{
    reveal_strlit(" (");
    reveal_strlit(")");
    let s = spec_short_version(git_sha);
    let ver = CARGO_PKG_VERSION@;
    let v = ver.len() as int;
    assert(" ("@ =~= seq![' ', '(']);
    assert(")"@ =~= seq![')']);
    assert(s.subrange(0, v) =~= ver);
    assert(s.subrange(v + 2, v + 2 + git_sha.len()) =~= git_sha);
    assert(s[v] == " ("@[0]);
    assert(s[v + 1] == " ("@[1]);
}

/// The long version holds each recorded field whole, each after its label
/// and on its own line.
pub proof fn lemma_long_version_parts(git_sha: Seq<char>, timestamp: Seq<char>, features: Seq<char>)
    ensures
        ({
            let s = spec_long_version(git_sha, timestamp, features);
            let v = CARGO_PKG_VERSION@.len() as int;
            let a = 9 + v + 1;
            let b = a + 12 + git_sha.len();
            let c = b + 1 + 17 + timestamp.len();
            &&& s.len() == c + 1 + 16 + features.len()
            &&& s.subrange(0, 9) == "Version: "@
            &&& s.subrange(9, 9 + v) == CARGO_PKG_VERSION@
            &&& s[9 + v] == '\n'
            &&& s.subrange(a, a + 12) == "Commit SHA: "@
            &&& s.subrange(a + 12, b) == git_sha
            &&& s[b] == '\n'
            &&& s.subrange(b + 1, b + 18) == "Build Timestamp: "@
            &&& s.subrange(b + 18, c) == timestamp
            &&& s[c] == '\n'
            &&& s.subrange(c + 1, c + 17) == "Build Features: "@
            &&& s.subrange(c + 17, s.len() as int) == features
        }),
{
    reveal_strlit("Version: ");
    reveal_strlit("Commit SHA: ");
    reveal_strlit("Build Timestamp: ");
    reveal_strlit("Build Features: ");
    reveal_strlit("\n");
    let s = spec_long_version(git_sha, timestamp, features);
    let ver = CARGO_PKG_VERSION@;
    let v = ver.len() as int;
    let a = 9 + v + 1;
    let b = a + 12 + git_sha.len();
    let c = b + 1 + 17 + timestamp.len();
    assert("\n"@ =~= seq!['\n']);
    assert(s.subrange(0, 9) =~= "Version: "@);
    assert(s.subrange(9, 9 + v) =~= ver);
    assert(s[9 + v] == "\n"@[0]);
    assert(s.subrange(a, a + 12) =~= "Commit SHA: "@);
    assert(s.subrange(a + 12, b) =~= git_sha);
    assert(s[b] == "\n"@[0]);
    assert(s.subrange(b + 1, b + 18) =~= "Build Timestamp: "@);
    assert(s.subrange(b + 18, c) =~= timestamp);
    assert(s[c] == "\n"@[0]);
    assert(s.subrange(c + 1, c + 17) =~= "Build Features: "@);
    assert(s.subrange(c + 17, s.len() as int) =~= features);
}

/// The long version takes 62 bytes besides the recorded fields, each of
/// which it holds whole.
pub proof fn lemma_long_version_byte_len(git_sha: Seq<char>, timestamp: Seq<char>, features: Seq<char>)
    ensures
        byte_len(spec_long_version(git_sha, timestamp, features))
            == byte_len(git_sha) + byte_len(timestamp) + byte_len(features) + 62,
{
    reveal_strlit("Version: ");
    reveal_strlit("0.1.0");
    reveal_strlit("Commit SHA: ");
    reveal_strlit("Build Timestamp: ");
    reveal_strlit("Build Features: ");
    reveal_strlit("\n");
    let l1 = "Version: "@;
    let ver = CARGO_PKG_VERSION@;
    let nl = "\n"@;
    let l2 = "Commit SHA: "@;
    let l3 = "Build Timestamp: "@;
    let l4 = "Build Features: "@;
    assert(l1 =~= seq!['V', 'e', 'r', 's', 'i', 'o', 'n', ':', ' ']);
    assert(ver =~= seq!['0', '.', '1', '.', '0']);
    assert(nl =~= seq!['\n']);
    assert(l2 =~= seq!['C', 'o', 'm', 'm', 'i', 't', ' ', 'S', 'H', 'A', ':', ' ']);
    assert(l3 =~= seq!['B', 'u', 'i', 'l', 'd', ' ', 'T', 'i', 'm', 'e', 's', 't', 'a', 'm', 'p', ':', ' ']);
    assert(l4 =~= seq!['B', 'u', 'i', 'l', 'd', ' ', 'F', 'e', 'a', 't', 'u', 'r', 'e', 's', ':', ' ']);
    assert(vstd::utf8::is_ascii_chars(l1));
    assert(vstd::utf8::is_ascii_chars(ver));
    assert(vstd::utf8::is_ascii_chars(nl));
    assert(vstd::utf8::is_ascii_chars(l2));
    assert(vstd::utf8::is_ascii_chars(l3));
    assert(vstd::utf8::is_ascii_chars(l4));
    lemma_byte_len_ascii(l1);
    lemma_byte_len_ascii(ver);
    lemma_byte_len_ascii(nl);
    lemma_byte_len_ascii(l2);
    lemma_byte_len_ascii(l3);
    lemma_byte_len_ascii(l4);
    let p1 = l1 + ver;
    let p2 = p1 + nl;
    let p3 = p2 + l2;
    let p4 = p3 + git_sha;
    let p5 = p4 + nl;
    let p6 = p5 + l3;
    let p7 = p6 + timestamp;
    let p8 = p7 + nl;
    let p9 = p8 + l4;
    let p10 = p9 + features;
    lemma_byte_len_concat(l1, ver);
    lemma_byte_len_concat(p1, nl);
    lemma_byte_len_concat(p2, l2);
    lemma_byte_len_concat(p3, git_sha);
    lemma_byte_len_concat(p4, nl);
    lemma_byte_len_concat(p5, l3);
    lemma_byte_len_concat(p6, timestamp);
    lemma_byte_len_concat(p7, nl);
    lemma_byte_len_concat(p8, l4);
    lemma_byte_len_concat(p9, features);
    assert(p10 == spec_long_version(git_sha, timestamp, features));
}

} // verus!
