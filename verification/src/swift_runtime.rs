//! Locating the Swift Concurrency runtime for the link step: which macOS
//! versions ship it in the system, which directories are searched for it,
//! and which directory the binary gets an rpath to.

use vstd::prelude::*;

use crate::config::{append, append_chars};
use crate::formats::{chars_of, string_from_chars};
use crate::server::opt_str_view;
use crate::text::{
    find_char, find_char_index, parse_decimal, parse_decimal_range, range_starts_with, starts_with,
    trim, trim_range,
};

verus! {

/// Directory of the system Swift runtime.
pub const SYSTEM_SWIFT_DIR: &'static str = "/usr/lib/swift";

/// `s` contains `p` as a contiguous run of characters.
pub open spec fn contains_seq(s: Seq<char>, p: Seq<char>) -> bool {
    exists|i: int| 0 <= i && i + p.len() <= s.len() && #[trigger] s.subrange(i, i + p.len()) == p
}

/// The first two `.`-separated parts of the trimmed text, each parsed as a
/// `u32` (`None` where a part is missing or is no number).
pub open spec fn version_parts(v: Seq<char>) -> (Option<nat>, Option<nat>) {
    let t = trim(v);
    match find_char(t, '.') {
        None => (parse_decimal(t, 0xFFFF_FFFF), None),
        Some(i) => {
            let rest = t.skip(i + 1 as int);
            let second = match find_char(rest, '.') {
                Some(j) => rest.take(j as int),
                None => rest,
            };
            (parse_decimal(t.take(i as int), 0xFFFF_FFFF), parse_decimal(second, 0xFFFF_FFFF))
        },
    }
}

/// A product version of macOS 12.3 or later: major above 12, or major 12
/// with minor at least 3.
pub open spec fn is_modern_version(v: Seq<char>) -> bool {
    match version_parts(v) {
        (Some(major), minor) => major > 12 || (major == 12 && (minor matches Some(m) && m >= 3)),
        _ => false,
    }
}

/// The directories searched for the runtime, in priority order: the
/// user-specified one, the system runtime, the toolchain of the active
/// developer directory (Command Line Tools or Xcode), then the default
/// Command Line Tools locations.
pub open spec fn spec_swift_lib_candidates(user_dir: Option<Seq<char>>, xcode_select: Option<Seq<char>>) -> Seq<Seq<char>> {
    let user = match user_dir {
        Some(p) => seq![p],
        None => Seq::<Seq<char>>::empty(),
    };
    let dev = match xcode_select {
        Some(out) => {
            let d = trim(out);
            if contains_seq(d, "CommandLineTools"@) {
                seq![d + "/usr/lib/swift/macosx"@, d + "/usr/lib/swift-5.5/macosx"@]
            } else {
                seq![
                    d + "/Toolchains/XcodeDefault.xctoolchain/usr/lib/swift/macosx"@,
                    d + "/Toolchains/XcodeDefault.xctoolchain/usr/lib/swift-5.5/macosx"@,
                ]
            }
        },
        None => Seq::<Seq<char>>::empty(),
    };
    user + seq![SYSTEM_SWIFT_DIR@] + dev + seq![
        "/Library/Developer/CommandLineTools/usr/lib/swift/macosx"@,
        "/Library/Developer/CommandLineTools/usr/lib/swift-5.5/macosx"@,
    ]
}

/// The first directory whose flag says it holds the runtime library.
pub open spec fn first_with_lib(dirs: Seq<Seq<char>>, has_lib: Seq<bool>) -> Option<Seq<char>>
    decreases dirs.len(),
{
    if dirs.len() == 0 || has_lib.len() == 0 {
        None
    } else if has_lib[0] {
        Some(dirs[0])
    } else {
        first_with_lib(dirs.drop_first(), has_lib.drop_first())
    }
}

/// The rpath directory: the user-specified directory when the library is
/// there, the system runtime on a modern macOS, else the first candidate
/// that holds the library.
pub open spec fn spec_swift_rpath(
    user_dir_with_lib: Option<Seq<char>>,
    modern_runtime: bool,
    candidates: Seq<Seq<char>>,
    has_lib: Seq<bool>,
) -> Option<Seq<char>> {
    match user_dir_with_lib {
        Some(d) => Some(d),
        None => if modern_runtime {
            Some(SYSTEM_SWIFT_DIR@)
        } else {
            first_with_lib(candidates, has_lib)
        },
    }
}

/// The characters `cs[a..b]`.
fn chars_in(cs: &Vec<char>, a: usize, b: usize) -> (out: Vec<char>)
    requires
        a <= b <= cs@.len(),
    ensures
        out@ == cs@.subrange(a as int, b as int),
{
    let mut out: Vec<char> = Vec::new();
    let mut i: usize = a;
    while i < b
        invariant
            a <= i <= b <= cs@.len(),
            out@ == cs@.subrange(a as int, i as int),
        decreases b - i,
    {
        out.push(cs[i]);
        assert(out@ =~= cs@.subrange(a as int, i + 1));
        i = i + 1;
    }
    out
}

/// Whether `cs` contains `p`.
fn contains_chars(cs: &Vec<char>, p: &Vec<char>) -> (r: bool)
    ensures
        r == contains_seq(cs@, p@),
{
    if p.len() > cs.len() {
        return false;
    }
    let last = cs.len() - p.len();
    let mut i: usize = 0;
    loop
        invariant
            last == cs@.len() - p@.len(),
            i <= last,
            forall|k: int| 0 <= k < i ==> #[trigger] cs@.subrange(k, k + p@.len()) != p@,
        decreases last - i,
    {
        assert(cs@.subrange(i as int, cs@.len() as int).take(p@.len() as int) =~= cs@.subrange(
            i as int,
            i + p@.len(),
        ));
        if range_starts_with(cs, i, cs.len(), p) {
            return true;
        }
        if i == last {
            return false;
        }
        i = i + 1;
    }
}

/// Whether the system ships the Swift Concurrency runtime: only on macOS,
/// and only when `sw_vers -productVersion` reported 12.3 or later.
/// `product_version` is that command's output, `None` when it failed.
pub fn has_modern_system_swift_runtime(on_macos: bool, product_version: Option<&str>) -> (b: bool)
    ensures
        b == (on_macos && match product_version {
            Some(v) => is_modern_version(v@),
            None => false,
        }),
{
    if !on_macos {
        return false;
    }
    let v = match product_version {
        Some(v) => v,
        None => return false,
    };
    let cs = chars_of(v);
    let (a, b) = trim_range(&cs, 0, cs.len());
    assert(cs@.subrange(0, cs@.len() as int) =~= cs@);
    let t = chars_in(&cs, a, b);
    let major: Option<u64>;
    let minor: Option<u64>;
    match find_char_index(&t, '.') {
        None => {
            assert(t@.subrange(0, t@.len() as int) =~= t@);
            major = parse_decimal_range(&t, 0, t.len(), 0xFFFF_FFFF);
            minor = None;
        },
        Some(i) => {
            assert(t@.subrange(0, i as int) =~= t@.take(i as int));
            major = parse_decimal_range(&t, 0, i, 0xFFFF_FFFF);
            let rest = chars_in(&t, i + 1, t.len());
            assert(rest@ =~= t@.skip(i + 1));
            match find_char_index(&rest, '.') {
                Some(j) => {
                    assert(rest@.subrange(0, j as int) =~= rest@.take(j as int));
                    minor = parse_decimal_range(&rest, 0, j, 0xFFFF_FFFF);
                },
                None => {
                    assert(rest@.subrange(0, rest@.len() as int) =~= rest@);
                    minor = parse_decimal_range(&rest, 0, rest.len(), 0xFFFF_FFFF);
                },
            }
        },
    }
    match major {
        Some(maj) => maj > 12 || (maj == 12 && match minor {
            Some(m) => m >= 3,
            None => false,
        }),
        None => false,
    }
}

/// `dir` followed by `suffix`, as a `String`.
fn joined(dir: &Vec<char>, suffix: &str) -> (s: String)
    ensures
        s@ == dir@ + suffix@,
{
    let mut cs: Vec<char> = Vec::new();
    append_chars(&mut cs, dir);
    append(&mut cs, suffix);
    assert(cs@ =~= dir@ + suffix@);
    string_from_chars(&cs, cs.len())
}

/// The directories to search for `libswift_Concurrency.dylib`, in priority
/// order.  `user_dir` is `SWIFT_LIB_PATH` when set; `xcode_select` is the
/// output of `xcode-select -p` when it succeeded.
pub fn swift_lib_candidates(user_dir: Option<&str>, xcode_select: Option<&str>) -> (v: Vec<String>)
    ensures
        v@.len() == spec_swift_lib_candidates(opt_str_view(user_dir), opt_str_view(xcode_select)).len(),
        forall|i: int|
            0 <= i < v@.len() ==> #[trigger] v@[i]@ == spec_swift_lib_candidates(
                opt_str_view(user_dir),
                opt_str_view(xcode_select),
            )[i],
{
    let ghost spec = spec_swift_lib_candidates(opt_str_view(user_dir), opt_str_view(xcode_select));
    let mut v: Vec<String> = Vec::new();
    let ghost mut expect: Seq<Seq<char>> = Seq::empty();
    match user_dir {
        Some(p) => {
            v.push(String::from_str(p));
            proof {
                expect = seq![p@];
            }
        },
        None => {},
    }
    v.push(String::from_str(SYSTEM_SWIFT_DIR));
    proof {
        expect = expect + seq![SYSTEM_SWIFT_DIR@];
    }
    assert(v@.len() == expect.len());
    assert(forall|i: int| 0 <= i < v@.len() ==> #[trigger] v@[i]@ == expect[i]);
    match xcode_select {
        Some(out) => {
            let cs = chars_of(out);
            let (a, b) = trim_range(&cs, 0, cs.len());
            assert(cs@.subrange(0, cs@.len() as int) =~= cs@);
            let d = chars_in(&cs, a, b);
            let clt = chars_of("CommandLineTools");
            if contains_chars(&d, &clt) {
                let s1 = joined(&d, "/usr/lib/swift/macosx");
                let s2 = joined(&d, "/usr/lib/swift-5.5/macosx");
                v.push(s1);
                v.push(s2);
                proof {
                    expect = expect + seq![d@ + "/usr/lib/swift/macosx"@, d@ + "/usr/lib/swift-5.5/macosx"@];
                }
            } else {
                let s1 = joined(&d, "/Toolchains/XcodeDefault.xctoolchain/usr/lib/swift/macosx");
                let s2 = joined(&d, "/Toolchains/XcodeDefault.xctoolchain/usr/lib/swift-5.5/macosx");
                v.push(s1);
                v.push(s2);
                proof {
                    expect = expect + seq![
                        d@ + "/Toolchains/XcodeDefault.xctoolchain/usr/lib/swift/macosx"@,
                        d@ + "/Toolchains/XcodeDefault.xctoolchain/usr/lib/swift-5.5/macosx"@,
                    ];
                }
            }
        },
        None => {},
    }
    assert(v@.len() == expect.len());
    assert(forall|i: int| 0 <= i < v@.len() ==> #[trigger] v@[i]@ == expect[i]);
    v.push(String::from_str("/Library/Developer/CommandLineTools/usr/lib/swift/macosx"));
    v.push(String::from_str("/Library/Developer/CommandLineTools/usr/lib/swift-5.5/macosx"));
    proof {
        expect = expect + seq![
            "/Library/Developer/CommandLineTools/usr/lib/swift/macosx"@,
            "/Library/Developer/CommandLineTools/usr/lib/swift-5.5/macosx"@,
        ];
    }
    assert(expect =~= spec);
    v
}

/// The directory the runtime is linked from, if any.  `user_dir_with_lib`
/// is `SWIFT_LIB_PATH` when the library exists there; `has_lib[i]` says
/// whether `candidates[i]` holds the library.
pub fn swift_rpath(
    user_dir_with_lib: Option<&str>,
    modern_runtime: bool,
    candidates: &Vec<String>,
    has_lib: &Vec<bool>,
) -> (r: Option<String>)
    ensures
        r matches Some(s) ==> spec_swift_rpath(
            opt_str_view(user_dir_with_lib),
            modern_runtime,
            candidates@.map_values(|c: String| c@),
            has_lib@,
        ) == Some(s@),
        r is None ==> spec_swift_rpath(
            opt_str_view(user_dir_with_lib),
            modern_runtime,
            candidates@.map_values(|c: String| c@),
            has_lib@,
        ) is None,
{
    match user_dir_with_lib {
        Some(d) => return Some(String::from_str(d)),
        None => {},
    }
    if modern_runtime {
        return Some(String::from_str(SYSTEM_SWIFT_DIR));
    }
    let ghost dirs = candidates@.map_values(|c: String| c@);
    assert(dirs.skip(0) =~= dirs);
    assert(has_lib@.skip(0) =~= has_lib@);
    let mut i: usize = 0;
    while i < candidates.len() && i < has_lib.len()
        invariant
            i <= candidates@.len(),
            i <= has_lib@.len(),
            user_dir_with_lib is None,
            !modern_runtime,
            dirs == candidates@.map_values(|c: String| c@),
            first_with_lib(dirs, has_lib@) == first_with_lib(
                dirs.skip(i as int),
                has_lib@.skip(i as int),
            ),
        decreases candidates.len() - i,
    {
        assert(dirs.skip(i as int).drop_first() =~= dirs.skip(i + 1));
        assert(has_lib@.skip(i as int).drop_first() =~= has_lib@.skip(i + 1));
        if has_lib[i] {
            let s = candidates[i].clone();
            assert(dirs.skip(i as int)[0] == s@);
            assert(has_lib@.skip(i as int)[0]);
            return Some(s);
        }
        i = i + 1;
    }
    None
}

/// The build-script line that adds an rpath to `dir`.
pub fn rpath_link_arg(dir: &str) -> (s: String)
    ensures
        s@ == "cargo:rustc-link-arg=-Wl,-rpath,"@ + dir@,
{
    let mut cs: Vec<char> = Vec::new();
    append(&mut cs, "cargo:rustc-link-arg=-Wl,-rpath,");
    append(&mut cs, dir);
    string_from_chars(&cs, cs.len())
}

} // verus!
