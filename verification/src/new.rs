//! `almk new`: the manifest and the files of a fresh project.
use vstd::prelude::*;
use crate::config::{Build, Config, Package};
use crate::text::same_text;

verus! {

/// The compilers and linker that a new project of a language uses.
pub struct Toolchain {
    pub cc: Option<String>,
    pub cxx: Option<String>,
    pub linker: String,
}

/// The toolchain for `language`: clang for "C", clang++ for "C++"; no other
/// language is supported.
pub fn toolchain(language: &str) -> (r: Option<Toolchain>)
    ensures
        language@ == "C"@ ==> (r matches Some(t) && t.cc matches Some(c) && c@ == "clang"@
            && t.cxx is None && t.linker@ == "clang"@),
        language@ == "C++"@ ==> (r matches Some(t) && t.cxx matches Some(c) && c@ == "clang++"@
            && t.cc is None && t.linker@ == "clang++"@),
        r is Some <==> (language@ == "C"@ || language@ == "C++"@),
{
    proof {
        reveal_strlit("C");
        reveal_strlit("C++");
        assert("C"@.len() == 1 && "C++"@.len() == 3);
        assert("C"@ != "C++"@);
    }
    if same_text(language, "C") {
        Some(Toolchain {
            cc: Some(String::from_str("clang")),
            cxx: None,
            linker: String::from_str("clang"),
        })
    } else if same_text(language, "C++") {
        Some(Toolchain {
            cc: None,
            cxx: Some(String::from_str("clang++")),
            linker: String::from_str("clang++"),
        })
    } else {
        None
    }
}

/// The `main.c` of a new C project: it prints `Hello world!`.
pub open spec fn c_main_text() -> Seq<char> {
    "#include <stdio.h>\n\nint main() {\n    printf(\"Hello world!\\n\");\n    return 0;\n}\n"@
}

/// The `main.cpp` of a new C++ project.
pub open spec fn cpp_main_text() -> Seq<char> {
    "#include <iostream>\n\nint main() {\n    std::cout << \"Hello, World!\" << std::endl;\n    return 0;\n}\n"@
}

/// The sources of a new project are complete programs: the C one starts by
/// including `<stdio.h>`, the C++ one by including `<iostream>`, each ends
/// with its closing brace and a newline, and each prints its greeting
/// (`Hello world!` for C, `Hello, World!` for C++).
pub proof fn law_main_sources_are_complete()
    ensures
        "#include <stdio.h>\n"@.is_prefix_of(c_main_text()),
        "#include <iostream>\n"@.is_prefix_of(cpp_main_text()),
        c_main_text().len() >= 2 && c_main_text().last() == '\n' && c_main_text()[c_main_text().len()
            - 2] == '}',
        cpp_main_text().len() >= 2 && cpp_main_text().last() == '\n' && cpp_main_text()[cpp_main_text().len()
            - 2] == '}',
        c_main_text().subrange(45, 57) == "Hello world!"@,
        cpp_main_text().subrange(52, 65) == "Hello, World!"@,
{
    reveal_strlit("Hello world!");
    reveal_strlit("Hello, World!");
    reveal_strlit("#include <stdio.h>\n");
    reveal_strlit("#include <iostream>\n");
    reveal_strlit(
        "#include <stdio.h>\n\nint main() {\n    printf(\"Hello world!\\n\");\n    return 0;\n}\n",
    );
    reveal_strlit(
        "#include <iostream>\n\nint main() {\n    std::cout << \"Hello, World!\" << std::endl;\n    return 0;\n}\n",
    );
}

/// What `almk new` writes: the directories to create, in order, the main
/// source file (path and text) where the language has one, and the manifest
/// with the path it goes to.
pub struct NewProject {
    pub config: Config,
    pub directories: Vec<String>,
    pub main_source: Option<(String, String)>,
    pub manifest_path: String,
}

/// The project `almk new` creates: directory `name` with `src/` in it, a
/// hello-world `src/main.c` or `src/main.cpp` for C or C++, and a manifest
/// `name/Alumake.toml` with version 0.1.0, no author, no license, a debug
/// build with the given compilers and linker, and no dependencies.
pub fn new(name: String, language: String, cc: Option<String>, cxx: Option<String>, linker: String) -> (p:
    NewProject)
    ensures
        p.config.package.name == name,
        p.config.package.version matches Some(v) && v@ == "0.1.0"@,
        p.config.package.author matches Some(a) && a@ == ""@,
        p.config.package.license matches Some(l) && l@ == "No License"@,
        p.config.package.language == Some(language),
        p.config.build.debug,
        p.config.build.linker == linker,
        p.config.build.cc == cc,
        p.config.build.cxx == cxx,
        p.config.build.cflags is None,
        p.config.build.cxxflags is None,
        p.config.build.lnflags is None,
        p.config.build.includes is None,
        p.config.dependencies is None,
        p.directories.deep_view() == seq![name@, name@ + "/src"@],
        language@ == "C"@ ==> (p.main_source matches Some((f, t)) && f@ == name@ + "/src/main.c"@
            && t@ == c_main_text() && "#include <stdio.h>\n"@.is_prefix_of(t@)),
        language@ == "C++"@ ==> (p.main_source matches Some((f, t)) && f@ == name@
            + "/src/main.cpp"@ && t@ == cpp_main_text() && "#include <iostream>\n"@.is_prefix_of(
            t@,
        )),
        language@ != "C"@ && language@ != "C++"@ ==> p.main_source is None,
        p.manifest_path@ == name@ + "/Alumake.toml"@,
{
    proof {
        reveal_strlit("C");
        reveal_strlit("C++");
        assert("C"@.len() == 1 && "C++"@.len() == 3);
        assert("C"@ != "C++"@);
    }
    let mut directories: Vec<String> = Vec::new();
    directories.push(name.clone());
    let mut src = name.clone();
    src.append("/src");
    directories.push(src);
    assert(directories.deep_view() =~= seq![name@, name@ + "/src"@]);
    let main_source = if same_text(language.as_str(), "C") {
        let mut f = name.clone();
        f.append("/src/main.c");
        Some((
            f,
            String::from_str(
                "#include <stdio.h>\n\nint main() {\n    printf(\"Hello world!\\n\");\n    return 0;\n}\n",
            ),
        ))
    } else if same_text(language.as_str(), "C++") {
        let mut f = name.clone();
        f.append("/src/main.cpp");
        Some((
            f,
            String::from_str(
                "#include <iostream>\n\nint main() {\n    std::cout << \"Hello, World!\" << std::endl;\n    return 0;\n}\n",
            ),
        ))
    } else {
        None
    };
    let mut manifest_path = name.clone();
    manifest_path.append("/Alumake.toml");
    let config = Config {
        package: Package {
            name,
            version: Some(String::from_str("0.1.0")),
            author: Some(String::new()),
            license: Some(String::from_str("No License")),
            language: Some(language),
        },
        build: Build {
            debug: true,
            linker,
            cc,
            cxx,
            cflags: None,
            cxxflags: None,
            lnflags: None,
            includes: None,
        },
        dependencies: None,
    };
    proof {
        reveal_strlit("");
        law_main_sources_are_complete();
    }
    NewProject { config, directories, main_source, manifest_path }
}

} // verus!
