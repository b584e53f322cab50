//! Project-structure heuristics: directories the walker never enters,
//! and framework detection over manifest file contents.

use vstd::prelude::*;

verus! {

use crate::text::has_sub;

/// The final path component: everything after the last `/`.
pub open spec fn file_name_of(p: Seq<char>) -> Seq<char> {
    p.skip(crate::find_last_char(p, '/') + 1)
}

/// Directory names the walker skips unconditionally.
pub open spec fn is_excluded_name(n: Seq<char>) -> bool {
    n == "node_modules"@ || n == "target"@ || n == "dist"@ || n == "build"@ || n == ".git"@ || n
        == "vendor"@
}

/// Whether a directory path's final component is one of the always
/// excluded names (build outputs, VCS data, vendored code).
pub fn is_excluded_directory(path: &String) -> (r: bool)
    ensures
        r == is_excluded_name(file_name_of(path@)),
{
    let chars = crate::text::str_chars(path.as_str());
    proof {
        crate::lemma_find_last_char(chars@, '/');
    }
    let n = chars.len();
    let mut start: usize = n;
    while start > 0 && chars[start - 1] != '/'
        invariant
            start <= n,
            n == chars@.len(),
            forall|j: int| start <= j < n ==> chars@[j] != '/',
        decreases start,
    {
        start = start - 1;
    }
    proof {
        let f = crate::find_last_char(chars@, '/');
        if start > 0 {
            if f < start - 1 {
                assert(chars@[start - 1] != '/');
            } else if f > start - 1 {
                assert(chars@[f] != '/');
            }
        } else {
            if f >= 0 {
                assert(chars@[f] != '/');
            }
        }
        assert(start as int == crate::find_last_char(chars@, '/') + 1);
    }
    let name = crate::text::copy_range(&chars, start, n);
    proof {
        assert(name@ =~= file_name_of(path@));
    }
    let p1 = crate::text::str_chars("node_modules");
    let p2 = crate::text::str_chars("target");
    let p3 = crate::text::str_chars("dist");
    let p4 = crate::text::str_chars("build");
    let p5 = crate::text::str_chars(".git");
    let p6 = crate::text::str_chars("vendor");
    crate::eq_chars(&name, &p1) || crate::eq_chars(&name, &p2) || crate::eq_chars(&name, &p3)
        || crate::eq_chars(&name, &p4) || crate::eq_chars(&name, &p5) || crate::eq_chars(
        &name,
        &p6,
    )
}

/// JavaScript frameworks recognised in a `package.json`.
pub open spec fn js_frameworks(content: Seq<char>) -> Seq<Seq<char>> {
    (if has_sub(content, "react"@) {
        seq!["React"@]
    } else {
        Seq::<Seq<char>>::empty()
    }) + (if has_sub(content, "vue"@) {
        seq!["Vue.js"@]
    } else {
        Seq::<Seq<char>>::empty()
    }) + (if has_sub(content, "angular"@) {
        seq!["Angular"@]
    } else {
        Seq::<Seq<char>>::empty()
    })
}

/// Detects JavaScript frameworks in a `package.json` text.
pub fn detect_js_frameworks(content: &String) -> (r: Vec<String>)
    ensures
        r@.map_values(|s: String| s@) == js_frameworks(content@),
{
    let chars = crate::text::str_chars(content.as_str());
    let mut r: Vec<String> = Vec::new();
    let p1 = crate::text::str_chars("react");
    if crate::text::contains_sub(&chars, &p1) {
        r.push("React".to_owned());
    }
    let p2 = crate::text::str_chars("vue");
    if crate::text::contains_sub(&chars, &p2) {
        r.push("Vue.js".to_owned());
    }
    let p3 = crate::text::str_chars("angular");
    if crate::text::contains_sub(&chars, &p3) {
        r.push("Angular".to_owned());
    }
    proof {
        assert(r@.map_values(|s: String| s@) =~= js_frameworks(content@));
    }
    r
}

/// Rust frameworks recognised in a `Cargo.toml`.
pub open spec fn rust_frameworks(content: Seq<char>) -> Seq<Seq<char>> {
    (if has_sub(content, "rocket"@) {
        seq!["Rocket"@]
    } else {
        Seq::<Seq<char>>::empty()
    }) + (if has_sub(content, "actix"@) {
        seq!["Actix"@]
    } else {
        Seq::<Seq<char>>::empty()
    }) + (if has_sub(content, "tokio"@) {
        seq!["Tokio"@]
    } else {
        Seq::<Seq<char>>::empty()
    })
}

/// Detects Rust frameworks in a `Cargo.toml` text.
pub fn detect_rust_frameworks(content: &String) -> (r: Vec<String>)
    ensures
        r@.map_values(|s: String| s@) == rust_frameworks(content@),
{
    let chars = crate::text::str_chars(content.as_str());
    let mut r: Vec<String> = Vec::new();
    let p1 = crate::text::str_chars("rocket");
    if crate::text::contains_sub(&chars, &p1) {
        r.push("Rocket".to_owned());
    }
    let p2 = crate::text::str_chars("actix");
    if crate::text::contains_sub(&chars, &p2) {
        r.push("Actix".to_owned());
    }
    let p3 = crate::text::str_chars("tokio");
    if crate::text::contains_sub(&chars, &p3) {
        r.push("Tokio".to_owned());
    }
    proof {
        assert(r@.map_values(|s: String| s@) =~= rust_frameworks(content@));
    }
    r
}

/// Python frameworks recognised in a `requirements.txt`.
pub open spec fn python_frameworks(content: Seq<char>) -> Seq<Seq<char>> {
    (if has_sub(content, "django"@) {
        seq!["Django"@]
    } else {
        Seq::<Seq<char>>::empty()
    }) + (if has_sub(content, "flask"@) {
        seq!["Flask"@]
    } else {
        Seq::<Seq<char>>::empty()
    }) + (if has_sub(content, "fastapi"@) {
        seq!["FastAPI"@]
    } else {
        Seq::<Seq<char>>::empty()
    })
}

/// Detects Python frameworks in a `requirements.txt` text.
pub fn detect_python_frameworks(content: &String) -> (r: Vec<String>)
    ensures
        r@.map_values(|s: String| s@) == python_frameworks(content@),
{
    let chars = crate::text::str_chars(content.as_str());
    let mut r: Vec<String> = Vec::new();
    let p1 = crate::text::str_chars("django");
    if crate::text::contains_sub(&chars, &p1) {
        r.push("Django".to_owned());
    }
    let p2 = crate::text::str_chars("flask");
    if crate::text::contains_sub(&chars, &p2) {
        r.push("Flask".to_owned());
    }
    let p3 = crate::text::str_chars("fastapi");
    if crate::text::contains_sub(&chars, &p3) {
        r.push("FastAPI".to_owned());
    }
    proof {
        assert(r@.map_values(|s: String| s@) =~= python_frameworks(content@));
    }
    r
}

/// Go frameworks recognised in a `go.mod`.
pub open spec fn go_frameworks(content: Seq<char>) -> Seq<Seq<char>> {
    (if has_sub(content, "gin-gonic"@) {
        seq!["Gin"@]
    } else {
        Seq::<Seq<char>>::empty()
    }) + (if has_sub(content, "fiber"@) {
        seq!["Fiber"@]
    } else {
        Seq::<Seq<char>>::empty()
    })
}

/// Detects Go frameworks in a `go.mod` text.
pub fn detect_go_frameworks(content: &String) -> (r: Vec<String>)
    ensures
        r@.map_values(|s: String| s@) == go_frameworks(content@),
{
    let chars = crate::text::str_chars(content.as_str());
    let mut r: Vec<String> = Vec::new();
    let p1 = crate::text::str_chars("gin-gonic");
    if crate::text::contains_sub(&chars, &p1) {
        r.push("Gin".to_owned());
    }
    let p2 = crate::text::str_chars("fiber");
    if crate::text::contains_sub(&chars, &p2) {
        r.push("Fiber".to_owned());
    }
    proof {
        assert(r@.map_values(|s: String| s@) =~= go_frameworks(content@));
    }
    r
}

/// PHP frameworks recognised in a `composer.json`.
pub open spec fn php_frameworks(content: Seq<char>) -> Seq<Seq<char>> {
    (if has_sub(content, "laravel"@) {
        seq!["Laravel"@]
    } else {
        Seq::<Seq<char>>::empty()
    }) + (if has_sub(content, "symfony"@) {
        seq!["Symfony"@]
    } else {
        Seq::<Seq<char>>::empty()
    })
}

/// Detects PHP frameworks in a `composer.json` text.
pub fn detect_php_frameworks(content: &String) -> (r: Vec<String>)
    ensures
        r@.map_values(|s: String| s@) == php_frameworks(content@),
{
    let chars = crate::text::str_chars(content.as_str());
    let mut r: Vec<String> = Vec::new();
    let p1 = crate::text::str_chars("laravel");
    if crate::text::contains_sub(&chars, &p1) {
        r.push("Laravel".to_owned());
    }
    let p2 = crate::text::str_chars("symfony");
    if crate::text::contains_sub(&chars, &p2) {
        r.push("Symfony".to_owned());
    }
    proof {
        assert(r@.map_values(|s: String| s@) =~= php_frameworks(content@));
    }
    r
}

/// Java frameworks recognised in a `pom.xml`.
pub open spec fn java_frameworks(content: Seq<char>) -> Seq<Seq<char>> {
    (if has_sub(content, "springframework"@) {
        seq!["Spring"@]
    } else {
        Seq::<Seq<char>>::empty()
    }) + (if has_sub(content, "hibernate"@) {
        seq!["Hibernate"@]
    } else {
        Seq::<Seq<char>>::empty()
    })
}

/// Detects Java frameworks in a `pom.xml` text.
pub fn detect_java_frameworks(content: &String) -> (r: Vec<String>)
    ensures
        r@.map_values(|s: String| s@) == java_frameworks(content@),
{
    let chars = crate::text::str_chars(content.as_str());
    let mut r: Vec<String> = Vec::new();
    let p1 = crate::text::str_chars("springframework");
    if crate::text::contains_sub(&chars, &p1) {
        r.push("Spring".to_owned());
    }
    let p2 = crate::text::str_chars("hibernate");
    if crate::text::contains_sub(&chars, &p2) {
        r.push("Hibernate".to_owned());
    }
    proof {
        assert(r@.map_values(|s: String| s@) =~= java_frameworks(content@));
    }
    r
}

} // verus!
