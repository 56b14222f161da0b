//! The names the language knows without a declaration: builtin variables and
//! keywords, and builtin functions.
use vstd::prelude::*;
use vstd::string::StringSliceAdditionalSpecFns;

verus! {

pub struct BuiltinSymbol {
    pub name: &'static str,
    pub detail: &'static str,
    pub documentation: &'static str,
}

/// Two disjoint tables: names that may be referenced, and functions that may be called.
pub struct BuiltinSymbols {
    pub keywords: Vec<BuiltinSymbol>,
    pub functions: Vec<BuiltinSymbol>,
}

/// The names of the builtin variables and keywords, in table order.
pub open spec fn builtin_keywords() -> Seq<&'static str> {
    seq![
        "pid",
        "tid",
        "uid",
        "gid",
        "nsecs",
        "elapsed",
        "numaid",
        "cpu",
        "comm",
        "kstack",
        "ustack",
        "arg0",
        "arg1",
        "arg2",
        "arg3",
        "arg4",
        "arg5",
        "args",
        "retval",
        "func",
        "probe",
        "curtask",
        "rand",
        "cgroup",
        "cpid",
        "username",
        "jiffies",
        "return",
    ]
}

/// The names of the builtin functions, in table order.
pub open spec fn builtin_functions() -> Seq<&'static str> {
    seq![
        "printf",
        "print",
        "time",
        "join",
        "str",
        "buf",
        "ksym",
        "usym",
        "kaddr",
        "uaddr",
        "reg",
        "system",
        "exit",
        "cat",
        "signal",
        "strncmp",
        "strcontains",
        "override",
        "sizeof",
        "ntop",
        "pton",
        "cgroupid",
        "macaddr",
        "strftime",
        "path",
        "count",
        "sum",
        "avg",
        "min",
        "max",
        "stats",
        "hist",
        "lhist",
        "delete",
        "clear",
        "zero",
        "len",
        "has_key",
    ]
}

/// The names of the symbols of a table.
pub open spec fn symbol_names(t: Seq<BuiltinSymbol>) -> Seq<&'static str> {
    t.map_values(|b: BuiltinSymbol| b.name)
}

/// The UTF-8 bytes of the names in a table, in table order.
pub open spec fn names_of(t: Seq<BuiltinSymbol>) -> Seq<Seq<u8>> {
    t.map_values(|b: BuiltinSymbol| b.name.spec_bytes())
}

/// The two tables are disjoint: no name is both a builtin keyword and a builtin function.
pub proof fn law_builtin_tables_disjoint()
    ensures
        forall|i: int, j: int|
            0 <= i < builtin_keywords().len() && 0 <= j < builtin_functions().len() ==> (
            #[trigger] builtin_keywords()[i])@ != (#[trigger] builtin_functions()[j])@,
{
    reveal_strlit("pid");
    reveal_strlit("tid");
    reveal_strlit("uid");
    reveal_strlit("gid");
    reveal_strlit("nsecs");
    reveal_strlit("elapsed");
    reveal_strlit("numaid");
    reveal_strlit("cpu");
    reveal_strlit("comm");
    reveal_strlit("kstack");
    reveal_strlit("ustack");
    reveal_strlit("arg0");
    reveal_strlit("arg1");
    reveal_strlit("arg2");
    reveal_strlit("arg3");
    reveal_strlit("arg4");
    reveal_strlit("arg5");
    reveal_strlit("args");
    reveal_strlit("retval");
    reveal_strlit("func");
    reveal_strlit("probe");
    reveal_strlit("curtask");
    reveal_strlit("rand");
    reveal_strlit("cgroup");
    reveal_strlit("cpid");
    reveal_strlit("username");
    reveal_strlit("jiffies");
    reveal_strlit("return");
    reveal_strlit("printf");
    reveal_strlit("print");
    reveal_strlit("time");
    reveal_strlit("join");
    reveal_strlit("str");
    reveal_strlit("buf");
    reveal_strlit("ksym");
    reveal_strlit("usym");
    reveal_strlit("kaddr");
    reveal_strlit("uaddr");
    reveal_strlit("reg");
    reveal_strlit("system");
    reveal_strlit("exit");
    reveal_strlit("cat");
    reveal_strlit("signal");
    reveal_strlit("strncmp");
    reveal_strlit("strcontains");
    reveal_strlit("override");
    reveal_strlit("sizeof");
    reveal_strlit("ntop");
    reveal_strlit("pton");
    reveal_strlit("cgroupid");
    reveal_strlit("macaddr");
    reveal_strlit("strftime");
    reveal_strlit("path");
    reveal_strlit("count");
    reveal_strlit("sum");
    reveal_strlit("avg");
    reveal_strlit("min");
    reveal_strlit("max");
    reveal_strlit("stats");
    reveal_strlit("hist");
    reveal_strlit("lhist");
    reveal_strlit("delete");
    reveal_strlit("clear");
    reveal_strlit("zero");
    reveal_strlit("len");
    reveal_strlit("has_key");
    assert("pid"@.len() == 3);
    assert("tid"@.len() == 3);
    assert("uid"@.len() == 3);
    assert("gid"@.len() == 3);
    assert("nsecs"@.len() == 5);
    assert("elapsed"@.len() == 7);
    assert("numaid"@.len() == 6);
    assert("cpu"@.len() == 3);
    assert("comm"@.len() == 4);
    assert("kstack"@.len() == 6);
    assert("ustack"@.len() == 6);
    assert("arg0"@.len() == 4);
    assert("arg1"@.len() == 4);
    assert("arg2"@.len() == 4);
    assert("arg3"@.len() == 4);
    assert("arg4"@.len() == 4);
    assert("arg5"@.len() == 4);
    assert("args"@.len() == 4);
    assert("retval"@.len() == 6);
    assert("func"@.len() == 4);
    assert("probe"@.len() == 5);
    assert("curtask"@.len() == 7);
    assert("rand"@.len() == 4);
    assert("cgroup"@.len() == 6);
    assert("cpid"@.len() == 4);
    assert("username"@.len() == 8);
    assert("jiffies"@.len() == 7);
    assert("return"@.len() == 6);
    assert("printf"@.len() == 6);
    assert("print"@.len() == 5);
    assert("time"@.len() == 4);
    assert("join"@.len() == 4);
    assert("str"@.len() == 3);
    assert("buf"@.len() == 3);
    assert("ksym"@.len() == 4);
    assert("usym"@.len() == 4);
    assert("kaddr"@.len() == 5);
    assert("uaddr"@.len() == 5);
    assert("reg"@.len() == 3);
    assert("system"@.len() == 6);
    assert("exit"@.len() == 4);
    assert("cat"@.len() == 3);
    assert("signal"@.len() == 6);
    assert("strncmp"@.len() == 7);
    assert("strcontains"@.len() == 11);
    assert("override"@.len() == 8);
    assert("sizeof"@.len() == 6);
    assert("ntop"@.len() == 4);
    assert("pton"@.len() == 4);
    assert("cgroupid"@.len() == 8);
    assert("macaddr"@.len() == 7);
    assert("strftime"@.len() == 8);
    assert("path"@.len() == 4);
    assert("count"@.len() == 5);
    assert("sum"@.len() == 3);
    assert("avg"@.len() == 3);
    assert("min"@.len() == 3);
    assert("max"@.len() == 3);
    assert("stats"@.len() == 5);
    assert("hist"@.len() == 4);
    assert("lhist"@.len() == 5);
    assert("delete"@.len() == 6);
    assert("clear"@.len() == 5);
    assert("zero"@.len() == 4);
    assert("len"@.len() == 3);
    assert("has_key"@.len() == 7);
    assert(builtin_keywords()[0] == "pid");
    assert(builtin_keywords()[1] == "tid");
    assert(builtin_keywords()[2] == "uid");
    assert(builtin_keywords()[3] == "gid");
    assert(builtin_keywords()[4] == "nsecs");
    assert(builtin_keywords()[5] == "elapsed");
    assert(builtin_keywords()[6] == "numaid");
    assert(builtin_keywords()[7] == "cpu");
    assert(builtin_keywords()[8] == "comm");
    assert(builtin_keywords()[9] == "kstack");
    assert(builtin_keywords()[10] == "ustack");
    assert(builtin_keywords()[11] == "arg0");
    assert(builtin_keywords()[12] == "arg1");
    assert(builtin_keywords()[13] == "arg2");
    assert(builtin_keywords()[14] == "arg3");
    assert(builtin_keywords()[15] == "arg4");
    assert(builtin_keywords()[16] == "arg5");
    assert(builtin_keywords()[17] == "args");
    assert(builtin_keywords()[18] == "retval");
    assert(builtin_keywords()[19] == "func");
    assert(builtin_keywords()[20] == "probe");
    assert(builtin_keywords()[21] == "curtask");
    assert(builtin_keywords()[22] == "rand");
    assert(builtin_keywords()[23] == "cgroup");
    assert(builtin_keywords()[24] == "cpid");
    assert(builtin_keywords()[25] == "username");
    assert(builtin_keywords()[26] == "jiffies");
    assert(builtin_keywords()[27] == "return");
    assert(builtin_functions()[0] == "printf");
    assert(builtin_functions()[1] == "print");
    assert(builtin_functions()[2] == "time");
    assert(builtin_functions()[3] == "join");
    assert(builtin_functions()[4] == "str");
    assert(builtin_functions()[5] == "buf");
    assert(builtin_functions()[6] == "ksym");
    assert(builtin_functions()[7] == "usym");
    assert(builtin_functions()[8] == "kaddr");
    assert(builtin_functions()[9] == "uaddr");
    assert(builtin_functions()[10] == "reg");
    assert(builtin_functions()[11] == "system");
    assert(builtin_functions()[12] == "exit");
    assert(builtin_functions()[13] == "cat");
    assert(builtin_functions()[14] == "signal");
    assert(builtin_functions()[15] == "strncmp");
    assert(builtin_functions()[16] == "strcontains");
    assert(builtin_functions()[17] == "override");
    assert(builtin_functions()[18] == "sizeof");
    assert(builtin_functions()[19] == "ntop");
    assert(builtin_functions()[20] == "pton");
    assert(builtin_functions()[21] == "cgroupid");
    assert(builtin_functions()[22] == "macaddr");
    assert(builtin_functions()[23] == "strftime");
    assert(builtin_functions()[24] == "path");
    assert(builtin_functions()[25] == "count");
    assert(builtin_functions()[26] == "sum");
    assert(builtin_functions()[27] == "avg");
    assert(builtin_functions()[28] == "min");
    assert(builtin_functions()[29] == "max");
    assert(builtin_functions()[30] == "stats");
    assert(builtin_functions()[31] == "hist");
    assert(builtin_functions()[32] == "lhist");
    assert(builtin_functions()[33] == "delete");
    assert(builtin_functions()[34] == "clear");
    assert(builtin_functions()[35] == "zero");
    assert(builtin_functions()[36] == "len");
    assert(builtin_functions()[37] == "has_key");
    assert("arg0"@[0] == 'a');
    assert("arg1"@[0] == 'a');
    assert("arg2"@[0] == 'a');
    assert("arg3"@[0] == 'a');
    assert("arg4"@[0] == 'a');
    assert("arg5"@[0] == 'a');
    assert("args"@[0] == 'a');
    assert("avg"@[0] == 'a');
    assert("buf"@[0] == 'b');
    assert("cat"@[0] == 'c');
    assert("cat"@[1] == 'a');
    assert("cgroup"@[0] == 'c');
    assert("cgroupid"@[0] == 'c');
    assert("clear"@[0] == 'c');
    assert("comm"@[0] == 'c');
    assert("count"@[0] == 'c');
    assert("cpid"@[0] == 'c');
    assert("cpu"@[0] == 'c');
    assert("cpu"@[1] == 'p');
    assert("curtask"@[0] == 'c');
    assert("delete"@[0] == 'd');
    assert("elapsed"@[0] == 'e');
    assert("exit"@[0] == 'e');
    assert("func"@[0] == 'f');
    assert("gid"@[0] == 'g');
    assert("has_key"@[0] == 'h');
    assert("hist"@[0] == 'h');
    assert("jiffies"@[0] == 'j');
    assert("join"@[0] == 'j');
    assert("kaddr"@[0] == 'k');
    assert("kstack"@[0] == 'k');
    assert("ksym"@[0] == 'k');
    assert("len"@[0] == 'l');
    assert("lhist"@[0] == 'l');
    assert("macaddr"@[0] == 'm');
    assert("max"@[0] == 'm');
    assert("min"@[0] == 'm');
    assert("nsecs"@[0] == 'n');
    assert("ntop"@[0] == 'n');
    assert("numaid"@[0] == 'n');
    assert("override"@[0] == 'o');
    assert("path"@[0] == 'p');
    assert("pid"@[0] == 'p');
    assert("print"@[0] == 'p');
    assert("print"@[2] == 'i');
    assert("printf"@[0] == 'p');
    assert("probe"@[0] == 'p');
    assert("probe"@[2] == 'o');
    assert("pton"@[0] == 'p');
    assert("rand"@[0] == 'r');
    assert("reg"@[0] == 'r');
    assert("return"@[0] == 'r');
    assert("retval"@[0] == 'r');
    assert("signal"@[0] == 's');
    assert("sizeof"@[0] == 's');
    assert("stats"@[0] == 's');
    assert("str"@[0] == 's');
    assert("strftime"@[0] == 's');
    assert("strncmp"@[0] == 's');
    assert("sum"@[0] == 's');
    assert("system"@[0] == 's');
    assert("tid"@[0] == 't');
    assert("time"@[0] == 't');
    assert("uaddr"@[0] == 'u');
    assert("uid"@[0] == 'u');
    assert("username"@[0] == 'u');
    assert("ustack"@[0] == 'u');
    assert("usym"@[0] == 'u');
    assert("zero"@[0] == 'z');
}

impl BuiltinSymbols {
    pub open spec fn keyword_names(&self) -> Seq<Seq<u8>> {
        names_of(self.keywords@)
    }

    pub open spec fn function_names(&self) -> Seq<Seq<u8>> {
        names_of(self.functions@)
    }

    /// The builtin table of the tracing language. No name is both a keyword and a function.
    pub fn new() -> (r: BuiltinSymbols)
        ensures
            symbol_names(r.keywords@) == builtin_keywords(),
            symbol_names(r.functions@) == builtin_functions(),
            r.keyword_names() == builtin_keywords().map_values(|n: &str| n.spec_bytes()),
            r.function_names() == builtin_functions().map_values(|n: &str| n.spec_bytes()),
    {
        let mut keywords: Vec<BuiltinSymbol> = Vec::new();
        keywords.push(sym("pid", "u64", "Process ID of the current thread's process"));
        keywords.push(sym("tid", "u64", "Thread ID of the current thread"));
        keywords.push(sym("uid", "u64", "User ID of the current thread"));
        keywords.push(sym("gid", "u64", "Group ID of the current thread"));
        keywords.push(sym("nsecs", "u64", "Nanosecond timestamp"));
        keywords.push(sym("elapsed", "u64", "Nanoseconds since the program started"));
        keywords.push(sym("numaid", "u32", "NUMA node of the current CPU"));
        keywords.push(sym("cpu", "u32", "Processor ID"));
        keywords.push(sym("comm", "string", "Name of the current process"));
        keywords.push(sym("kstack", "kstack", "Kernel stack trace"));
        keywords.push(sym("ustack", "ustack", "User stack trace"));
        keywords.push(sym("arg0", "u64", "First argument of the traced function"));
        keywords.push(sym("arg1", "u64", "Second argument of the traced function"));
        keywords.push(sym("arg2", "u64", "Third argument of the traced function"));
        keywords.push(sym("arg3", "u64", "Fourth argument of the traced function"));
        keywords.push(sym("arg4", "u64", "Fifth argument of the traced function"));
        keywords.push(sym("arg5", "u64", "Sixth argument of the traced function"));
        keywords.push(sym("args", "struct", "Arguments of a tracepoint or typed function"));
        keywords.push(sym("retval", "u64", "Return value of the traced function"));
        keywords.push(sym("func", "string", "Name of the traced function"));
        keywords.push(sym("probe", "string", "Full name of the current probe"));
        keywords.push(sym("curtask", "u64", "Address of the current task struct"));
        keywords.push(sym("rand", "u32", "Random number"));
        keywords.push(sym("cgroup", "u64", "Cgroup ID of the current process"));
        keywords.push(sym("cpid", "u32", "Child process ID"));
        keywords.push(sym("username", "string", "Name of the current user"));
        keywords.push(sym("jiffies", "u64", "Jiffies of the kernel"));
        keywords.push(sym("return", "keyword", "Leaves the current probe"));
        let mut functions: Vec<BuiltinSymbol> = Vec::new();
        functions.push(sym("printf", "printf(fmt, ...)", "Print formatted"));
        functions.push(sym("print", "print(value)", "Print a value"));
        functions.push(sym("time", "time(fmt)", "Print the current time"));
        functions.push(sym("join", "join(array)", "Print an array of strings"));
        functions.push(sym("str", "str(ptr)", "Read a string"));
        functions.push(sym("buf", "buf(ptr, len)", "Read a buffer"));
        functions.push(sym("ksym", "ksym(addr)", "Kernel symbol of an address"));
        functions.push(sym("usym", "usym(addr)", "User symbol of an address"));
        functions.push(sym("kaddr", "kaddr(name)", "Address of a kernel symbol"));
        functions.push(sym("uaddr", "uaddr(name)", "Address of a user symbol"));
        functions.push(sym("reg", "reg(name)", "Value of a register"));
        functions.push(sym("system", "system(fmt, ...)", "Run a shell command"));
        functions.push(sym("exit", "exit()", "Quit the program"));
        functions.push(sym("cat", "cat(file)", "Print the contents of a file"));
        functions.push(sym("signal", "signal(sig)", "Send a signal to the current process"));
        functions.push(sym("strncmp", "strncmp(a, b, n)", "Compare two strings"));
        functions.push(sym("strcontains", "strcontains(a, b)", "Whether a string holds another"));
        functions.push(sym("override", "override(rc)", "Override the return value"));
        functions.push(sym("sizeof", "sizeof(type)", "Size of a type or expression"));
        functions.push(sym("ntop", "ntop(addr)", "Format an IP address"));
        functions.push(sym("pton", "pton(text)", "Parse an IP address"));
        functions.push(sym("cgroupid", "cgroupid(path)", "Cgroup ID of a path"));
        functions.push(sym("macaddr", "macaddr(addr)", "Format a MAC address"));
        functions.push(sym("strftime", "strftime(fmt, nsecs)", "Format a timestamp"));
        functions.push(sym("path", "path(ptr)", "Full path of a struct path"));
        functions.push(sym("count", "count()", "Count calls"));
        functions.push(sym("sum", "sum(n)", "Sum a value"));
        functions.push(sym("avg", "avg(n)", "Average a value"));
        functions.push(sym("min", "min(n)", "Minimum of a value"));
        functions.push(sym("max", "max(n)", "Maximum of a value"));
        functions.push(sym("stats", "stats(n)", "Count, average and total of a value"));
        functions.push(sym("hist", "hist(n)", "Power-of-two histogram"));
        functions.push(sym("lhist", "lhist(n, min, max, step)", "Linear histogram"));
        functions.push(sym("delete", "delete(map, key)", "Delete a map element"));
        functions.push(sym("clear", "clear(map)", "Delete all elements of a map"));
        functions.push(sym("zero", "zero(map)", "Set all values of a map to zero"));
        functions.push(sym("len", "len(map)", "Number of elements of a map"));
        functions.push(sym("has_key", "has_key(map, key)", "Whether a map holds a key"));
        let r = BuiltinSymbols { keywords, functions };
        proof {
            assert(symbol_names(r.keywords@) =~= builtin_keywords());
            assert(symbol_names(r.functions@) =~= builtin_functions());
            assert(r.keyword_names() =~= builtin_keywords().map_values(|n: &str| n.spec_bytes()));
            assert(r.function_names() =~= builtin_functions().map_values(|n: &str| n.spec_bytes()));
        }
        r
    }
}

fn sym(name: &'static str, detail: &'static str, documentation: &'static str) -> (r: BuiltinSymbol)
    ensures
        r.name == name,
        r.detail == detail,
        r.documentation == documentation,
{
    BuiltinSymbol { name, detail, documentation }
}

} // verus!
