use vstd::prelude::*;

verus! {

/// The search-path value that puts `value` in front of the `existing` one:
/// `value:existing` when a non-empty value exists, else `value` alone.
pub open spec fn prepended(value: Seq<u8>, existing: Option<Seq<u8>>) -> Seq<u8> {
    match existing {
        Some(e) => if e.len() > 0 {
            value + seq![58u8] + e
        } else {
            value
        },
        None => value,
    }
}

/// Puts `value` in front of a colon-separated search path.
pub fn prepend_path(value: &[u8], existing: Option<&[u8]>) -> (r: Vec<u8>)
    ensures
        r@ == prepended(
            value@,
            match existing {
                Some(e) => Some(e@),
                None => None,
            },
        ),
{
    let mut r: Vec<u8> = Vec::new();
    let mut i: usize = 0;
    while i < value.len()
        invariant
            i <= value@.len(),
            r@ == value@.subrange(0, i as int),
        decreases value@.len() - i,
    {
        r.push(value[i]);
        i = i + 1;
        assert(r@ =~= value@.subrange(0, i as int));
    }
    assert(r@ =~= value@);
    match existing {
        Some(e) => {
            if e.len() > 0 {
                let ghost head = r@.push(58u8);
                r.push(58u8);
                let mut j: usize = 0;
                while j < e.len()
                    invariant
                        j <= e@.len(),
                        r@ == head + e@.subrange(0, j as int),
                    decreases e@.len() - j,
                {
                    r.push(e[j]);
                    j = j + 1;
                    assert(r@ =~= head + e@.subrange(0, j as int));
                }
                assert(e@.subrange(0, e@.len() as int) =~= e@);
                assert(r@ =~= value@ + seq![58u8] + e@);
            }
        },
        None => {},
    }
    r
}

/// The Homebrew directories that the media framework is pointed at: each
/// variable with the directory put in front of its search path.
pub open spec fn gstreamer_dirs() -> Seq<(Seq<char>, Seq<char>)> {
    seq![
        ("DYLD_FALLBACK_LIBRARY_PATH"@, "/opt/homebrew/lib"@),
        ("GI_TYPELIB_PATH"@, "/opt/homebrew/lib/girepository-1.0"@),
        ("GST_PLUGIN_SYSTEM_PATH_1_0"@, "/opt/homebrew/lib/gstreamer-1.0"@),
        ("GIO_EXTRA_MODULES"@, "/opt/homebrew/lib/gio/modules"@),
    ]
}

/// The variables and directories to put in front of their search paths, in
/// the order they are set.
pub fn gstreamer_search_dirs() -> (v: Vec<(&'static str, &'static str)>)
    ensures
        v@.len() == gstreamer_dirs().len(),
        forall|i: int|
            0 <= i < v@.len() ==> (#[trigger] v@[i]).0@ == gstreamer_dirs()[i].0 && v@[i].1@
                == gstreamer_dirs()[i].1,
{
    vec![
        ("DYLD_FALLBACK_LIBRARY_PATH", "/opt/homebrew/lib"),
        ("GI_TYPELIB_PATH", "/opt/homebrew/lib/girepository-1.0"),
        ("GST_PLUGIN_SYSTEM_PATH_1_0", "/opt/homebrew/lib/gstreamer-1.0"),
        ("GIO_EXTRA_MODULES", "/opt/homebrew/lib/gio/modules"),
    ]
}

/// The plug-in scanner that `GST_PLUGIN_SCANNER` names when it is installed.
pub fn gstreamer_plugin_scanner() -> (p: &'static str)
    ensures
        p@ == "/opt/homebrew/Cellar/gstreamer/1.28.1/libexec/gstreamer-1.0/gst-plugin-scanner"@,
{
    "/opt/homebrew/Cellar/gstreamer/1.28.1/libexec/gstreamer-1.0/gst-plugin-scanner"
}

} // verus!
