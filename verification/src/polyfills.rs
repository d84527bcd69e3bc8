//! The registry of built-in Node module polyfills: a static ordered list of
//! module names and the specifier each is served from, consumed by the
//! outer runtime. Lookup is an exact match on the name.

use vstd::prelude::*;

verus! {

/// Where a polyfill is served from.
pub enum NodeModulePolyfillSpecifier {
    /// An internal module embedded in the binary's own asset bundle.
    Embedded(&'static str),
    /// A path relative to the root of the standard library repository.
    StdNode(&'static str),
}

/// Spec-level image of `NodeModulePolyfillSpecifier`.
pub enum PolyfillSpecifierModel {
    Embedded(Seq<char>),
    StdNode(Seq<char>),
}

impl View for NodeModulePolyfillSpecifier {
    type V = PolyfillSpecifierModel;

    open spec fn view(&self) -> PolyfillSpecifierModel {
        match self {
            NodeModulePolyfillSpecifier::Embedded(s) => PolyfillSpecifierModel::Embedded(s@),
            NodeModulePolyfillSpecifier::StdNode(s) => PolyfillSpecifierModel::StdNode(s@),
        }
    }
}

/// One supported built-in module: its name, like `assert` or
/// `timers/promises`, and the specifier it is served from.
pub struct NodeModulePolyfill {
    pub name: &'static str,
    pub specifier: NodeModulePolyfillSpecifier,
}

/// The specifier registered for a built-in module name.
pub open spec fn spec_polyfill(name: Seq<char>) -> Option<PolyfillSpecifierModel> {
    if name == "assert"@ {
        Option::Some(PolyfillSpecifierModel::StdNode("node/assert.ts"@))
    } else
    if name == "assert/strict"@ {
        Option::Some(PolyfillSpecifierModel::StdNode("node/assert/strict.ts"@))
    } else
    if name == "async_hooks"@ {
        Option::Some(PolyfillSpecifierModel::StdNode("node/async_hooks.ts"@))
    } else
    if name == "buffer"@ {
        Option::Some(PolyfillSpecifierModel::StdNode("node/buffer.ts"@))
    } else
    if name == "child_process"@ {
        Option::Some(PolyfillSpecifierModel::StdNode("node/child_process.ts"@))
    } else
    if name == "cluster"@ {
        Option::Some(PolyfillSpecifierModel::StdNode("node/cluster.ts"@))
    } else
    if name == "console"@ {
        Option::Some(PolyfillSpecifierModel::StdNode("node/console.ts"@))
    } else
    if name == "constants"@ {
        Option::Some(PolyfillSpecifierModel::StdNode("node/constants.ts"@))
    } else
    if name == "crypto"@ {
        Option::Some(PolyfillSpecifierModel::StdNode("node/crypto.ts"@))
    } else
    if name == "dgram"@ {
        Option::Some(PolyfillSpecifierModel::StdNode("node/dgram.ts"@))
    } else
    if name == "dns"@ {
        Option::Some(PolyfillSpecifierModel::StdNode("node/dns.ts"@))
    } else
    if name == "dns/promises"@ {
        Option::Some(PolyfillSpecifierModel::StdNode("node/dns/promises.ts"@))
    } else
    if name == "domain"@ {
        Option::Some(PolyfillSpecifierModel::StdNode("node/domain.ts"@))
    } else
    if name == "events"@ {
        Option::Some(PolyfillSpecifierModel::StdNode("node/events.ts"@))
    } else
    if name == "fs"@ {
        Option::Some(PolyfillSpecifierModel::StdNode("node/fs.ts"@))
    } else
    if name == "fs/promises"@ {
        Option::Some(PolyfillSpecifierModel::StdNode("node/fs/promises.ts"@))
    } else
    if name == "http"@ {
        Option::Some(PolyfillSpecifierModel::StdNode("node/http.ts"@))
    } else
    if name == "https"@ {
        Option::Some(PolyfillSpecifierModel::StdNode("node/https.ts"@))
    } else
    if name == "module"@ {
        Option::Some(PolyfillSpecifierModel::Embedded("internal:deno_node/module_es_shim.js"@))
    } else
    if name == "net"@ {
        Option::Some(PolyfillSpecifierModel::StdNode("node/net.ts"@))
    } else
    if name == "os"@ {
        Option::Some(PolyfillSpecifierModel::StdNode("node/os.ts"@))
    } else
    if name == "path"@ {
        Option::Some(PolyfillSpecifierModel::StdNode("node/path.ts"@))
    } else
    if name == "path/posix"@ {
        Option::Some(PolyfillSpecifierModel::StdNode("node/path/posix.ts"@))
    } else
    if name == "path/win32"@ {
        Option::Some(PolyfillSpecifierModel::StdNode("node/path/win32.ts"@))
    } else
    if name == "perf_hooks"@ {
        Option::Some(PolyfillSpecifierModel::StdNode("node/perf_hooks.ts"@))
    } else
    if name == "process"@ {
        Option::Some(PolyfillSpecifierModel::StdNode("node/process.ts"@))
    } else
    if name == "querystring"@ {
        Option::Some(PolyfillSpecifierModel::StdNode("node/querystring.ts"@))
    } else
    if name == "readline"@ {
        Option::Some(PolyfillSpecifierModel::StdNode("node/readline.ts"@))
    } else
    if name == "stream"@ {
        Option::Some(PolyfillSpecifierModel::StdNode("node/stream.ts"@))
    } else
    if name == "stream/consumers"@ {
        Option::Some(PolyfillSpecifierModel::StdNode("node/stream/consumers.mjs"@))
    } else
    if name == "stream/promises"@ {
        Option::Some(PolyfillSpecifierModel::StdNode("node/stream/promises.mjs"@))
    } else
    if name == "stream/web"@ {
        Option::Some(PolyfillSpecifierModel::StdNode("node/stream/web.ts"@))
    } else
    if name == "string_decoder"@ {
        Option::Some(PolyfillSpecifierModel::StdNode("node/string_decoder.ts"@))
    } else
    if name == "sys"@ {
        Option::Some(PolyfillSpecifierModel::StdNode("node/sys.ts"@))
    } else
    if name == "timers"@ {
        Option::Some(PolyfillSpecifierModel::StdNode("node/timers.ts"@))
    } else
    if name == "timers/promises"@ {
        Option::Some(PolyfillSpecifierModel::StdNode("node/timers/promises.ts"@))
    } else
    if name == "tls"@ {
        Option::Some(PolyfillSpecifierModel::StdNode("node/tls.ts"@))
    } else
    if name == "tty"@ {
        Option::Some(PolyfillSpecifierModel::StdNode("node/tty.ts"@))
    } else
    if name == "url"@ {
        Option::Some(PolyfillSpecifierModel::StdNode("node/url.ts"@))
    } else
    if name == "util"@ {
        Option::Some(PolyfillSpecifierModel::StdNode("node/util.ts"@))
    } else
    if name == "util/types"@ {
        Option::Some(PolyfillSpecifierModel::StdNode("node/util/types.ts"@))
    } else
    if name == "v8"@ {
        Option::Some(PolyfillSpecifierModel::StdNode("node/v8.ts"@))
    } else
    if name == "vm"@ {
        Option::Some(PolyfillSpecifierModel::StdNode("node/vm.ts"@))
    } else
    if name == "worker_threads"@ {
        Option::Some(PolyfillSpecifierModel::StdNode("node/worker_threads.ts"@))
    } else
    if name == "zlib"@ {
        Option::Some(PolyfillSpecifierModel::StdNode("node/zlib.ts"@))
    } else {
        Option::None
    }
}

/// Looks a built-in module name up in the registry.
pub fn find_builtin(name: &str) -> (r: Option<NodeModulePolyfillSpecifier>)
    ensures
        match r {
            Option::Some(s) => spec_polyfill(name@) == Option::Some(s@),
            Option::None => spec_polyfill(name@) is None,
        },
{
    if crate::chars::str_equals(name, "assert") {
        return Option::Some(NodeModulePolyfillSpecifier::StdNode("node/assert.ts"));
    }
    if crate::chars::str_equals(name, "assert/strict") {
        return Option::Some(NodeModulePolyfillSpecifier::StdNode("node/assert/strict.ts"));
    }
    if crate::chars::str_equals(name, "async_hooks") {
        return Option::Some(NodeModulePolyfillSpecifier::StdNode("node/async_hooks.ts"));
    }
    if crate::chars::str_equals(name, "buffer") {
        return Option::Some(NodeModulePolyfillSpecifier::StdNode("node/buffer.ts"));
    }
    if crate::chars::str_equals(name, "child_process") {
        return Option::Some(NodeModulePolyfillSpecifier::StdNode("node/child_process.ts"));
    }
    if crate::chars::str_equals(name, "cluster") {
        return Option::Some(NodeModulePolyfillSpecifier::StdNode("node/cluster.ts"));
    }
    if crate::chars::str_equals(name, "console") {
        return Option::Some(NodeModulePolyfillSpecifier::StdNode("node/console.ts"));
    }
    if crate::chars::str_equals(name, "constants") {
        return Option::Some(NodeModulePolyfillSpecifier::StdNode("node/constants.ts"));
    }
    if crate::chars::str_equals(name, "crypto") {
        return Option::Some(NodeModulePolyfillSpecifier::StdNode("node/crypto.ts"));
    }
    if crate::chars::str_equals(name, "dgram") {
        return Option::Some(NodeModulePolyfillSpecifier::StdNode("node/dgram.ts"));
    }
    if crate::chars::str_equals(name, "dns") {
        return Option::Some(NodeModulePolyfillSpecifier::StdNode("node/dns.ts"));
    }
    if crate::chars::str_equals(name, "dns/promises") {
        return Option::Some(NodeModulePolyfillSpecifier::StdNode("node/dns/promises.ts"));
    }
    if crate::chars::str_equals(name, "domain") {
        return Option::Some(NodeModulePolyfillSpecifier::StdNode("node/domain.ts"));
    }
    if crate::chars::str_equals(name, "events") {
        return Option::Some(NodeModulePolyfillSpecifier::StdNode("node/events.ts"));
    }
    if crate::chars::str_equals(name, "fs") {
        return Option::Some(NodeModulePolyfillSpecifier::StdNode("node/fs.ts"));
    }
    if crate::chars::str_equals(name, "fs/promises") {
        return Option::Some(NodeModulePolyfillSpecifier::StdNode("node/fs/promises.ts"));
    }
    if crate::chars::str_equals(name, "http") {
        return Option::Some(NodeModulePolyfillSpecifier::StdNode("node/http.ts"));
    }
    if crate::chars::str_equals(name, "https") {
        return Option::Some(NodeModulePolyfillSpecifier::StdNode("node/https.ts"));
    }
    if crate::chars::str_equals(name, "module") {
        return Option::Some(NodeModulePolyfillSpecifier::Embedded("internal:deno_node/module_es_shim.js"));
    }
    if crate::chars::str_equals(name, "net") {
        return Option::Some(NodeModulePolyfillSpecifier::StdNode("node/net.ts"));
    }
    if crate::chars::str_equals(name, "os") {
        return Option::Some(NodeModulePolyfillSpecifier::StdNode("node/os.ts"));
    }
    if crate::chars::str_equals(name, "path") {
        return Option::Some(NodeModulePolyfillSpecifier::StdNode("node/path.ts"));
    }
    if crate::chars::str_equals(name, "path/posix") {
        return Option::Some(NodeModulePolyfillSpecifier::StdNode("node/path/posix.ts"));
    }
    if crate::chars::str_equals(name, "path/win32") {
        return Option::Some(NodeModulePolyfillSpecifier::StdNode("node/path/win32.ts"));
    }
    if crate::chars::str_equals(name, "perf_hooks") {
        return Option::Some(NodeModulePolyfillSpecifier::StdNode("node/perf_hooks.ts"));
    }
    if crate::chars::str_equals(name, "process") {
        return Option::Some(NodeModulePolyfillSpecifier::StdNode("node/process.ts"));
    }
    if crate::chars::str_equals(name, "querystring") {
        return Option::Some(NodeModulePolyfillSpecifier::StdNode("node/querystring.ts"));
    }
    if crate::chars::str_equals(name, "readline") {
        return Option::Some(NodeModulePolyfillSpecifier::StdNode("node/readline.ts"));
    }
    if crate::chars::str_equals(name, "stream") {
        return Option::Some(NodeModulePolyfillSpecifier::StdNode("node/stream.ts"));
    }
    if crate::chars::str_equals(name, "stream/consumers") {
        return Option::Some(NodeModulePolyfillSpecifier::StdNode("node/stream/consumers.mjs"));
    }
    if crate::chars::str_equals(name, "stream/promises") {
        return Option::Some(NodeModulePolyfillSpecifier::StdNode("node/stream/promises.mjs"));
    }
    if crate::chars::str_equals(name, "stream/web") {
        return Option::Some(NodeModulePolyfillSpecifier::StdNode("node/stream/web.ts"));
    }
    if crate::chars::str_equals(name, "string_decoder") {
        return Option::Some(NodeModulePolyfillSpecifier::StdNode("node/string_decoder.ts"));
    }
    if crate::chars::str_equals(name, "sys") {
        return Option::Some(NodeModulePolyfillSpecifier::StdNode("node/sys.ts"));
    }
    if crate::chars::str_equals(name, "timers") {
        return Option::Some(NodeModulePolyfillSpecifier::StdNode("node/timers.ts"));
    }
    if crate::chars::str_equals(name, "timers/promises") {
        return Option::Some(NodeModulePolyfillSpecifier::StdNode("node/timers/promises.ts"));
    }
    if crate::chars::str_equals(name, "tls") {
        return Option::Some(NodeModulePolyfillSpecifier::StdNode("node/tls.ts"));
    }
    if crate::chars::str_equals(name, "tty") {
        return Option::Some(NodeModulePolyfillSpecifier::StdNode("node/tty.ts"));
    }
    if crate::chars::str_equals(name, "url") {
        return Option::Some(NodeModulePolyfillSpecifier::StdNode("node/url.ts"));
    }
    if crate::chars::str_equals(name, "util") {
        return Option::Some(NodeModulePolyfillSpecifier::StdNode("node/util.ts"));
    }
    if crate::chars::str_equals(name, "util/types") {
        return Option::Some(NodeModulePolyfillSpecifier::StdNode("node/util/types.ts"));
    }
    if crate::chars::str_equals(name, "v8") {
        return Option::Some(NodeModulePolyfillSpecifier::StdNode("node/v8.ts"));
    }
    if crate::chars::str_equals(name, "vm") {
        return Option::Some(NodeModulePolyfillSpecifier::StdNode("node/vm.ts"));
    }
    if crate::chars::str_equals(name, "worker_threads") {
        return Option::Some(NodeModulePolyfillSpecifier::StdNode("node/worker_threads.ts"));
    }
    if crate::chars::str_equals(name, "zlib") {
        return Option::Some(NodeModulePolyfillSpecifier::StdNode("node/zlib.ts"));
    }
    Option::None
}

/// The registry as an ordered list; `find_builtin` pins which specifier
/// each name maps to.
pub fn supported_builtin_node_modules() -> (r: Vec<NodeModulePolyfill>)
    ensures
        r@.len() == 45,
{
    let mut r: Vec<NodeModulePolyfill> = Vec::new();
    r.push(NodeModulePolyfill { name: "assert", specifier: NodeModulePolyfillSpecifier::StdNode("node/assert.ts") });
    r.push(NodeModulePolyfill { name: "assert/strict", specifier: NodeModulePolyfillSpecifier::StdNode("node/assert/strict.ts") });
    r.push(NodeModulePolyfill { name: "async_hooks", specifier: NodeModulePolyfillSpecifier::StdNode("node/async_hooks.ts") });
    r.push(NodeModulePolyfill { name: "buffer", specifier: NodeModulePolyfillSpecifier::StdNode("node/buffer.ts") });
    r.push(NodeModulePolyfill { name: "child_process", specifier: NodeModulePolyfillSpecifier::StdNode("node/child_process.ts") });
    r.push(NodeModulePolyfill { name: "cluster", specifier: NodeModulePolyfillSpecifier::StdNode("node/cluster.ts") });
    r.push(NodeModulePolyfill { name: "console", specifier: NodeModulePolyfillSpecifier::StdNode("node/console.ts") });
    r.push(NodeModulePolyfill { name: "constants", specifier: NodeModulePolyfillSpecifier::StdNode("node/constants.ts") });
    r.push(NodeModulePolyfill { name: "crypto", specifier: NodeModulePolyfillSpecifier::StdNode("node/crypto.ts") });
    r.push(NodeModulePolyfill { name: "dgram", specifier: NodeModulePolyfillSpecifier::StdNode("node/dgram.ts") });
    r.push(NodeModulePolyfill { name: "dns", specifier: NodeModulePolyfillSpecifier::StdNode("node/dns.ts") });
    r.push(NodeModulePolyfill { name: "dns/promises", specifier: NodeModulePolyfillSpecifier::StdNode("node/dns/promises.ts") });
    r.push(NodeModulePolyfill { name: "domain", specifier: NodeModulePolyfillSpecifier::StdNode("node/domain.ts") });
    r.push(NodeModulePolyfill { name: "events", specifier: NodeModulePolyfillSpecifier::StdNode("node/events.ts") });
    r.push(NodeModulePolyfill { name: "fs", specifier: NodeModulePolyfillSpecifier::StdNode("node/fs.ts") });
    r.push(NodeModulePolyfill { name: "fs/promises", specifier: NodeModulePolyfillSpecifier::StdNode("node/fs/promises.ts") });
    r.push(NodeModulePolyfill { name: "http", specifier: NodeModulePolyfillSpecifier::StdNode("node/http.ts") });
    r.push(NodeModulePolyfill { name: "https", specifier: NodeModulePolyfillSpecifier::StdNode("node/https.ts") });
    r.push(NodeModulePolyfill { name: "module", specifier: NodeModulePolyfillSpecifier::Embedded("internal:deno_node/module_es_shim.js") });
    r.push(NodeModulePolyfill { name: "net", specifier: NodeModulePolyfillSpecifier::StdNode("node/net.ts") });
    r.push(NodeModulePolyfill { name: "os", specifier: NodeModulePolyfillSpecifier::StdNode("node/os.ts") });
    r.push(NodeModulePolyfill { name: "path", specifier: NodeModulePolyfillSpecifier::StdNode("node/path.ts") });
    r.push(NodeModulePolyfill { name: "path/posix", specifier: NodeModulePolyfillSpecifier::StdNode("node/path/posix.ts") });
    r.push(NodeModulePolyfill { name: "path/win32", specifier: NodeModulePolyfillSpecifier::StdNode("node/path/win32.ts") });
    r.push(NodeModulePolyfill { name: "perf_hooks", specifier: NodeModulePolyfillSpecifier::StdNode("node/perf_hooks.ts") });
    r.push(NodeModulePolyfill { name: "process", specifier: NodeModulePolyfillSpecifier::StdNode("node/process.ts") });
    r.push(NodeModulePolyfill { name: "querystring", specifier: NodeModulePolyfillSpecifier::StdNode("node/querystring.ts") });
    r.push(NodeModulePolyfill { name: "readline", specifier: NodeModulePolyfillSpecifier::StdNode("node/readline.ts") });
    r.push(NodeModulePolyfill { name: "stream", specifier: NodeModulePolyfillSpecifier::StdNode("node/stream.ts") });
    r.push(NodeModulePolyfill { name: "stream/consumers", specifier: NodeModulePolyfillSpecifier::StdNode("node/stream/consumers.mjs") });
    r.push(NodeModulePolyfill { name: "stream/promises", specifier: NodeModulePolyfillSpecifier::StdNode("node/stream/promises.mjs") });
    r.push(NodeModulePolyfill { name: "stream/web", specifier: NodeModulePolyfillSpecifier::StdNode("node/stream/web.ts") });
    r.push(NodeModulePolyfill { name: "string_decoder", specifier: NodeModulePolyfillSpecifier::StdNode("node/string_decoder.ts") });
    r.push(NodeModulePolyfill { name: "sys", specifier: NodeModulePolyfillSpecifier::StdNode("node/sys.ts") });
    r.push(NodeModulePolyfill { name: "timers", specifier: NodeModulePolyfillSpecifier::StdNode("node/timers.ts") });
    r.push(NodeModulePolyfill { name: "timers/promises", specifier: NodeModulePolyfillSpecifier::StdNode("node/timers/promises.ts") });
    r.push(NodeModulePolyfill { name: "tls", specifier: NodeModulePolyfillSpecifier::StdNode("node/tls.ts") });
    r.push(NodeModulePolyfill { name: "tty", specifier: NodeModulePolyfillSpecifier::StdNode("node/tty.ts") });
    r.push(NodeModulePolyfill { name: "url", specifier: NodeModulePolyfillSpecifier::StdNode("node/url.ts") });
    r.push(NodeModulePolyfill { name: "util", specifier: NodeModulePolyfillSpecifier::StdNode("node/util.ts") });
    r.push(NodeModulePolyfill { name: "util/types", specifier: NodeModulePolyfillSpecifier::StdNode("node/util/types.ts") });
    r.push(NodeModulePolyfill { name: "v8", specifier: NodeModulePolyfillSpecifier::StdNode("node/v8.ts") });
    r.push(NodeModulePolyfill { name: "vm", specifier: NodeModulePolyfillSpecifier::StdNode("node/vm.ts") });
    r.push(NodeModulePolyfill { name: "worker_threads", specifier: NodeModulePolyfillSpecifier::StdNode("node/worker_threads.ts") });
    r.push(NodeModulePolyfill { name: "zlib", specifier: NodeModulePolyfillSpecifier::StdNode("node/zlib.ts") });
    r
}

} // verus!
