//! The reserved keywords of (System)Verilog, and the standards that reserve them

use vstd::prelude::*;
use vstd::string::StringSliceAdditionalSpecFns;

verus! {

/// A reserved keyword of IEEE 1364 / IEEE 1800
#[derive(Clone, Copy, Debug, PartialEq, Eq, Hash, Structural)]
pub enum Keyword {
    Always,
    And,
    Assign,
    Begin,
    Buf,
    Bufif0,
    Bufif1,
    Case,
    Casex,
    Casez,
    Cmos,
    Deassign,
    Default,
    Defparam,
    Disable,
    Edge,
    Else,
    End,
    Endcase,
    Endfunction,
    Endmodule,
    Endprimitive,
    Endspecify,
    Endtable,
    Endtask,
    Event,
    For,
    Force,
    Forever,
    Fork,
    Function,
    Highz0,
    Highz1,
    If,
    Ifnone,
    Initial,
    Inout,
    Input,
    Integer,
    Join,
    Large,
    Macromodule,
    Medium,
    Module,
    Nand,
    Negedge,
    Nmos,
    Nor,
    Not,
    Notif0,
    Notif1,
    Or,
    Output,
    Parameter,
    Pmos,
    Posedge,
    Primitive,
    Pull0,
    Pull1,
    Pulldown,
    Pullup,
    Rcmos,
    Real,
    Realtime,
    Reg,
    Release,
    Repeat,
    Rnmos,
    Rpmos,
    Rtran,
    Rtranif0,
    Rtranif1,
    Scalared,
    Small,
    Specify,
    Specparam,
    Strong0,
    Strong1,
    Supply0,
    Supply1,
    Table,
    Task,
    Time,
    Tran,
    Tranif0,
    Tranif1,
    Tri,
    Tri0,
    Tri1,
    Triand,
    Trior,
    Trireg,
    Vectored,
    Wait,
    Wand,
    Weak0,
    Weak1,
    While,
    Wire,
    Wor,
    Xnor,
    Xor,
    Automatic,
    Cell,
    Config,
    Design,
    Endconfig,
    Endgenerate,
    Generate,
    Genvar,
    Incdir,
    Include,
    Instance,
    Liblist,
    Library,
    Localparam,
    Noshowcancelled,
    PulsestyleOndetect,
    PulsestyleOnevent,
    Showcancelled,
    Signed,
    Unsigned,
    Use,
    Uwire,
    Alias,
    AlwaysComb,
    AlwaysFf,
    AlwaysLatch,
    Assert,
    Assume,
    Before,
    Bind,
    Bins,
    Binsof,
    Bit,
    Break,
    Byte,
    Chandle,
    Class,
    Clocking,
    Const,
    Constraint,
    Context,
    Continue,
    Cover,
    Covergroup,
    Coverpoint,
    Cross,
    Dist,
    Do,
    Endclass,
    Endclocking,
    Endgroup,
    Endinterface,
    Endpackage,
    Endprogram,
    Endproperty,
    Endsequence,
    Enum,
    Expect,
    Export,
    Extends,
    Extern,
    Final,
    FirstMatch,
    Foreach,
    Forkjoin,
    Iff,
    IgnoreBins,
    IllegalBins,
    Import,
    Inside,
    Int,
    Interface,
    Intersect,
    JoinAny,
    JoinNone,
    Local,
    Logic,
    Longint,
    Matches,
    Modport,
    New,
    Null,
    Package,
    Packed,
    Priority,
    Program,
    Property,
    Protected,
    Pure,
    Rand,
    Randc,
    Randcase,
    Randsequence,
    Ref,
    Return,
    Sequence,
    Shortint,
    Shortreal,
    Solve,
    Static,
    String,
    Struct,
    Super,
    Tagged,
    This,
    Throughout,
    Timeprecision,
    Timeunit,
    Type,
    Typedef,
    Union,
    Unique,
    Var,
    Virtual,
    Void,
    WaitOrder,
    Wildcard,
    With,
    Within,
    AcceptOn,
    Checker,
    Endchecker,
    Eventually,
    Global,
    Implies,
    Let,
    Nexttime,
    RejectOn,
    Restrict,
    SAlways,
    SEventually,
    SNexttime,
    SUntil,
    SUntilWith,
    Strong,
    SyncAcceptOn,
    SyncRejectOn,
    Unique0,
    Until,
    UntilWith,
    Untyped,
    Weak,
    Implements,
    Interconnect,
    Nettype,
    Soft,
    PathpulseDollar,
}

/// The number of reserved keywords
pub const KEYWORD_COUNT: usize = 249;

/// A version specifier of `` `begin_keywords ``, naming a set of reserved keywords
#[derive(Clone, Copy, Debug, PartialEq, Eq, Hash, Structural)]
pub enum KeywordStandard {
    V1364_1995,
    V1364_2001,
    V1364_2001Noconfig,
    V1364_2005,
    V1800_2005,
    V1800_2009,
    V1800_2012,
    V1800_2017,
    V1800_2023,
}

impl Keyword {
    /// The text of the keyword
    pub open spec fn text(self) -> &'static str {
        match self {
            Keyword::Always => "always",
            Keyword::And => "and",
            Keyword::Assign => "assign",
            Keyword::Begin => "begin",
            Keyword::Buf => "buf",
            Keyword::Bufif0 => "bufif0",
            Keyword::Bufif1 => "bufif1",
            Keyword::Case => "case",
            Keyword::Casex => "casex",
            Keyword::Casez => "casez",
            Keyword::Cmos => "cmos",
            Keyword::Deassign => "deassign",
            Keyword::Default => "default",
            Keyword::Defparam => "defparam",
            Keyword::Disable => "disable",
            Keyword::Edge => "edge",
            Keyword::Else => "else",
            Keyword::End => "end",
            Keyword::Endcase => "endcase",
            Keyword::Endfunction => "endfunction",
            Keyword::Endmodule => "endmodule",
            Keyword::Endprimitive => "endprimitive",
            Keyword::Endspecify => "endspecify",
            Keyword::Endtable => "endtable",
            Keyword::Endtask => "endtask",
            Keyword::Event => "event",
            Keyword::For => "for",
            Keyword::Force => "force",
            Keyword::Forever => "forever",
            Keyword::Fork => "fork",
            Keyword::Function => "function",
            Keyword::Highz0 => "highz0",
            Keyword::Highz1 => "highz1",
            Keyword::If => "if",
            Keyword::Ifnone => "ifnone",
            Keyword::Initial => "initial",
            Keyword::Inout => "inout",
            Keyword::Input => "input",
            Keyword::Integer => "integer",
            Keyword::Join => "join",
            Keyword::Large => "large",
            Keyword::Macromodule => "macromodule",
            Keyword::Medium => "medium",
            Keyword::Module => "module",
            Keyword::Nand => "nand",
            Keyword::Negedge => "negedge",
            Keyword::Nmos => "nmos",
            Keyword::Nor => "nor",
            Keyword::Not => "not",
            Keyword::Notif0 => "notif0",
            Keyword::Notif1 => "notif1",
            Keyword::Or => "or",
            Keyword::Output => "output",
            Keyword::Parameter => "parameter",
            Keyword::Pmos => "pmos",
            Keyword::Posedge => "posedge",
            Keyword::Primitive => "primitive",
            Keyword::Pull0 => "pull0",
            Keyword::Pull1 => "pull1",
            Keyword::Pulldown => "pulldown",
            Keyword::Pullup => "pullup",
            Keyword::Rcmos => "rcmos",
            Keyword::Real => "real",
            Keyword::Realtime => "realtime",
            Keyword::Reg => "reg",
            Keyword::Release => "release",
            Keyword::Repeat => "repeat",
            Keyword::Rnmos => "rnmos",
            Keyword::Rpmos => "rpmos",
            Keyword::Rtran => "rtran",
            Keyword::Rtranif0 => "rtranif0",
            Keyword::Rtranif1 => "rtranif1",
            Keyword::Scalared => "scalared",
            Keyword::Small => "small",
            Keyword::Specify => "specify",
            Keyword::Specparam => "specparam",
            Keyword::Strong0 => "strong0",
            Keyword::Strong1 => "strong1",
            Keyword::Supply0 => "supply0",
            Keyword::Supply1 => "supply1",
            Keyword::Table => "table",
            Keyword::Task => "task",
            Keyword::Time => "time",
            Keyword::Tran => "tran",
            Keyword::Tranif0 => "tranif0",
            Keyword::Tranif1 => "tranif1",
            Keyword::Tri => "tri",
            Keyword::Tri0 => "tri0",
            Keyword::Tri1 => "tri1",
            Keyword::Triand => "triand",
            Keyword::Trior => "trior",
            Keyword::Trireg => "trireg",
            Keyword::Vectored => "vectored",
            Keyword::Wait => "wait",
            Keyword::Wand => "wand",
            Keyword::Weak0 => "weak0",
            Keyword::Weak1 => "weak1",
            Keyword::While => "while",
            Keyword::Wire => "wire",
            Keyword::Wor => "wor",
            Keyword::Xnor => "xnor",
            Keyword::Xor => "xor",
            Keyword::Automatic => "automatic",
            Keyword::Cell => "cell",
            Keyword::Config => "config",
            Keyword::Design => "design",
            Keyword::Endconfig => "endconfig",
            Keyword::Endgenerate => "endgenerate",
            Keyword::Generate => "generate",
            Keyword::Genvar => "genvar",
            Keyword::Incdir => "incdir",
            Keyword::Include => "include",
            Keyword::Instance => "instance",
            Keyword::Liblist => "liblist",
            Keyword::Library => "library",
            Keyword::Localparam => "localparam",
            Keyword::Noshowcancelled => "noshowcancelled",
            Keyword::PulsestyleOndetect => "pulsestyle_ondetect",
            Keyword::PulsestyleOnevent => "pulsestyle_onevent",
            Keyword::Showcancelled => "showcancelled",
            Keyword::Signed => "signed",
            Keyword::Unsigned => "unsigned",
            Keyword::Use => "use",
            Keyword::Uwire => "uwire",
            Keyword::Alias => "alias",
            Keyword::AlwaysComb => "always_comb",
            Keyword::AlwaysFf => "always_ff",
            Keyword::AlwaysLatch => "always_latch",
            Keyword::Assert => "assert",
            Keyword::Assume => "assume",
            Keyword::Before => "before",
            Keyword::Bind => "bind",
            Keyword::Bins => "bins",
            Keyword::Binsof => "binsof",
            Keyword::Bit => "bit",
            Keyword::Break => "break",
            Keyword::Byte => "byte",
            Keyword::Chandle => "chandle",
            Keyword::Class => "class",
            Keyword::Clocking => "clocking",
            Keyword::Const => "const",
            Keyword::Constraint => "constraint",
            Keyword::Context => "context",
            Keyword::Continue => "continue",
            Keyword::Cover => "cover",
            Keyword::Covergroup => "covergroup",
            Keyword::Coverpoint => "coverpoint",
            Keyword::Cross => "cross",
            Keyword::Dist => "dist",
            Keyword::Do => "do",
            Keyword::Endclass => "endclass",
            Keyword::Endclocking => "endclocking",
            Keyword::Endgroup => "endgroup",
            Keyword::Endinterface => "endinterface",
            Keyword::Endpackage => "endpackage",
            Keyword::Endprogram => "endprogram",
            Keyword::Endproperty => "endproperty",
            Keyword::Endsequence => "endsequence",
            Keyword::Enum => "enum",
            Keyword::Expect => "expect",
            Keyword::Export => "export",
            Keyword::Extends => "extends",
            Keyword::Extern => "extern",
            Keyword::Final => "final",
            Keyword::FirstMatch => "first_match",
            Keyword::Foreach => "foreach",
            Keyword::Forkjoin => "forkjoin",
            Keyword::Iff => "iff",
            Keyword::IgnoreBins => "ignore_bins",
            Keyword::IllegalBins => "illegal_bins",
            Keyword::Import => "import",
            Keyword::Inside => "inside",
            Keyword::Int => "int",
            Keyword::Interface => "interface",
            Keyword::Intersect => "intersect",
            Keyword::JoinAny => "join_any",
            Keyword::JoinNone => "join_none",
            Keyword::Local => "local",
            Keyword::Logic => "logic",
            Keyword::Longint => "longint",
            Keyword::Matches => "matches",
            Keyword::Modport => "modport",
            Keyword::New => "new",
            Keyword::Null => "null",
            Keyword::Package => "package",
            Keyword::Packed => "packed",
            Keyword::Priority => "priority",
            Keyword::Program => "program",
            Keyword::Property => "property",
            Keyword::Protected => "protected",
            Keyword::Pure => "pure",
            Keyword::Rand => "rand",
            Keyword::Randc => "randc",
            Keyword::Randcase => "randcase",
            Keyword::Randsequence => "randsequence",
            Keyword::Ref => "ref",
            Keyword::Return => "return",
            Keyword::Sequence => "sequence",
            Keyword::Shortint => "shortint",
            Keyword::Shortreal => "shortreal",
            Keyword::Solve => "solve",
            Keyword::Static => "static",
            Keyword::String => "string",
            Keyword::Struct => "struct",
            Keyword::Super => "super",
            Keyword::Tagged => "tagged",
            Keyword::This => "this",
            Keyword::Throughout => "throughout",
            Keyword::Timeprecision => "timeprecision",
            Keyword::Timeunit => "timeunit",
            Keyword::Type => "type",
            Keyword::Typedef => "typedef",
            Keyword::Union => "union",
            Keyword::Unique => "unique",
            Keyword::Var => "var",
            Keyword::Virtual => "virtual",
            Keyword::Void => "void",
            Keyword::WaitOrder => "wait_order",
            Keyword::Wildcard => "wildcard",
            Keyword::With => "with",
            Keyword::Within => "within",
            Keyword::AcceptOn => "accept_on",
            Keyword::Checker => "checker",
            Keyword::Endchecker => "endchecker",
            Keyword::Eventually => "eventually",
            Keyword::Global => "global",
            Keyword::Implies => "implies",
            Keyword::Let => "let",
            Keyword::Nexttime => "nexttime",
            Keyword::RejectOn => "reject_on",
            Keyword::Restrict => "restrict",
            Keyword::SAlways => "s_always",
            Keyword::SEventually => "s_eventually",
            Keyword::SNexttime => "s_nexttime",
            Keyword::SUntil => "s_until",
            Keyword::SUntilWith => "s_until_with",
            Keyword::Strong => "strong",
            Keyword::SyncAcceptOn => "sync_accept_on",
            Keyword::SyncRejectOn => "sync_reject_on",
            Keyword::Unique0 => "unique0",
            Keyword::Until => "until",
            Keyword::UntilWith => "until_with",
            Keyword::Untyped => "untyped",
            Keyword::Weak => "weak",
            Keyword::Implements => "implements",
            Keyword::Interconnect => "interconnect",
            Keyword::Nettype => "nettype",
            Keyword::Soft => "soft",
            Keyword::PathpulseDollar => "PATHPULSE$",
        }
    }

    /// The bytes of the keyword's text
    pub open spec fn bytes(self) -> Seq<u8> {
        self.text().spec_bytes()
    }

    /// The text of the keyword
    pub fn as_str(&self) -> (r: &'static str)
        ensures
            r == self.text(),
    {
        match self {
            Keyword::Always => "always",
            Keyword::And => "and",
            Keyword::Assign => "assign",
            Keyword::Begin => "begin",
            Keyword::Buf => "buf",
            Keyword::Bufif0 => "bufif0",
            Keyword::Bufif1 => "bufif1",
            Keyword::Case => "case",
            Keyword::Casex => "casex",
            Keyword::Casez => "casez",
            Keyword::Cmos => "cmos",
            Keyword::Deassign => "deassign",
            Keyword::Default => "default",
            Keyword::Defparam => "defparam",
            Keyword::Disable => "disable",
            Keyword::Edge => "edge",
            Keyword::Else => "else",
            Keyword::End => "end",
            Keyword::Endcase => "endcase",
            Keyword::Endfunction => "endfunction",
            Keyword::Endmodule => "endmodule",
            Keyword::Endprimitive => "endprimitive",
            Keyword::Endspecify => "endspecify",
            Keyword::Endtable => "endtable",
            Keyword::Endtask => "endtask",
            Keyword::Event => "event",
            Keyword::For => "for",
            Keyword::Force => "force",
            Keyword::Forever => "forever",
            Keyword::Fork => "fork",
            Keyword::Function => "function",
            Keyword::Highz0 => "highz0",
            Keyword::Highz1 => "highz1",
            Keyword::If => "if",
            Keyword::Ifnone => "ifnone",
            Keyword::Initial => "initial",
            Keyword::Inout => "inout",
            Keyword::Input => "input",
            Keyword::Integer => "integer",
            Keyword::Join => "join",
            Keyword::Large => "large",
            Keyword::Macromodule => "macromodule",
            Keyword::Medium => "medium",
            Keyword::Module => "module",
            Keyword::Nand => "nand",
            Keyword::Negedge => "negedge",
            Keyword::Nmos => "nmos",
            Keyword::Nor => "nor",
            Keyword::Not => "not",
            Keyword::Notif0 => "notif0",
            Keyword::Notif1 => "notif1",
            Keyword::Or => "or",
            Keyword::Output => "output",
            Keyword::Parameter => "parameter",
            Keyword::Pmos => "pmos",
            Keyword::Posedge => "posedge",
            Keyword::Primitive => "primitive",
            Keyword::Pull0 => "pull0",
            Keyword::Pull1 => "pull1",
            Keyword::Pulldown => "pulldown",
            Keyword::Pullup => "pullup",
            Keyword::Rcmos => "rcmos",
            Keyword::Real => "real",
            Keyword::Realtime => "realtime",
            Keyword::Reg => "reg",
            Keyword::Release => "release",
            Keyword::Repeat => "repeat",
            Keyword::Rnmos => "rnmos",
            Keyword::Rpmos => "rpmos",
            Keyword::Rtran => "rtran",
            Keyword::Rtranif0 => "rtranif0",
            Keyword::Rtranif1 => "rtranif1",
            Keyword::Scalared => "scalared",
            Keyword::Small => "small",
            Keyword::Specify => "specify",
            Keyword::Specparam => "specparam",
            Keyword::Strong0 => "strong0",
            Keyword::Strong1 => "strong1",
            Keyword::Supply0 => "supply0",
            Keyword::Supply1 => "supply1",
            Keyword::Table => "table",
            Keyword::Task => "task",
            Keyword::Time => "time",
            Keyword::Tran => "tran",
            Keyword::Tranif0 => "tranif0",
            Keyword::Tranif1 => "tranif1",
            Keyword::Tri => "tri",
            Keyword::Tri0 => "tri0",
            Keyword::Tri1 => "tri1",
            Keyword::Triand => "triand",
            Keyword::Trior => "trior",
            Keyword::Trireg => "trireg",
            Keyword::Vectored => "vectored",
            Keyword::Wait => "wait",
            Keyword::Wand => "wand",
            Keyword::Weak0 => "weak0",
            Keyword::Weak1 => "weak1",
            Keyword::While => "while",
            Keyword::Wire => "wire",
            Keyword::Wor => "wor",
            Keyword::Xnor => "xnor",
            Keyword::Xor => "xor",
            Keyword::Automatic => "automatic",
            Keyword::Cell => "cell",
            Keyword::Config => "config",
            Keyword::Design => "design",
            Keyword::Endconfig => "endconfig",
            Keyword::Endgenerate => "endgenerate",
            Keyword::Generate => "generate",
            Keyword::Genvar => "genvar",
            Keyword::Incdir => "incdir",
            Keyword::Include => "include",
            Keyword::Instance => "instance",
            Keyword::Liblist => "liblist",
            Keyword::Library => "library",
            Keyword::Localparam => "localparam",
            Keyword::Noshowcancelled => "noshowcancelled",
            Keyword::PulsestyleOndetect => "pulsestyle_ondetect",
            Keyword::PulsestyleOnevent => "pulsestyle_onevent",
            Keyword::Showcancelled => "showcancelled",
            Keyword::Signed => "signed",
            Keyword::Unsigned => "unsigned",
            Keyword::Use => "use",
            Keyword::Uwire => "uwire",
            Keyword::Alias => "alias",
            Keyword::AlwaysComb => "always_comb",
            Keyword::AlwaysFf => "always_ff",
            Keyword::AlwaysLatch => "always_latch",
            Keyword::Assert => "assert",
            Keyword::Assume => "assume",
            Keyword::Before => "before",
            Keyword::Bind => "bind",
            Keyword::Bins => "bins",
            Keyword::Binsof => "binsof",
            Keyword::Bit => "bit",
            Keyword::Break => "break",
            Keyword::Byte => "byte",
            Keyword::Chandle => "chandle",
            Keyword::Class => "class",
            Keyword::Clocking => "clocking",
            Keyword::Const => "const",
            Keyword::Constraint => "constraint",
            Keyword::Context => "context",
            Keyword::Continue => "continue",
            Keyword::Cover => "cover",
            Keyword::Covergroup => "covergroup",
            Keyword::Coverpoint => "coverpoint",
            Keyword::Cross => "cross",
            Keyword::Dist => "dist",
            Keyword::Do => "do",
            Keyword::Endclass => "endclass",
            Keyword::Endclocking => "endclocking",
            Keyword::Endgroup => "endgroup",
            Keyword::Endinterface => "endinterface",
            Keyword::Endpackage => "endpackage",
            Keyword::Endprogram => "endprogram",
            Keyword::Endproperty => "endproperty",
            Keyword::Endsequence => "endsequence",
            Keyword::Enum => "enum",
            Keyword::Expect => "expect",
            Keyword::Export => "export",
            Keyword::Extends => "extends",
            Keyword::Extern => "extern",
            Keyword::Final => "final",
            Keyword::FirstMatch => "first_match",
            Keyword::Foreach => "foreach",
            Keyword::Forkjoin => "forkjoin",
            Keyword::Iff => "iff",
            Keyword::IgnoreBins => "ignore_bins",
            Keyword::IllegalBins => "illegal_bins",
            Keyword::Import => "import",
            Keyword::Inside => "inside",
            Keyword::Int => "int",
            Keyword::Interface => "interface",
            Keyword::Intersect => "intersect",
            Keyword::JoinAny => "join_any",
            Keyword::JoinNone => "join_none",
            Keyword::Local => "local",
            Keyword::Logic => "logic",
            Keyword::Longint => "longint",
            Keyword::Matches => "matches",
            Keyword::Modport => "modport",
            Keyword::New => "new",
            Keyword::Null => "null",
            Keyword::Package => "package",
            Keyword::Packed => "packed",
            Keyword::Priority => "priority",
            Keyword::Program => "program",
            Keyword::Property => "property",
            Keyword::Protected => "protected",
            Keyword::Pure => "pure",
            Keyword::Rand => "rand",
            Keyword::Randc => "randc",
            Keyword::Randcase => "randcase",
            Keyword::Randsequence => "randsequence",
            Keyword::Ref => "ref",
            Keyword::Return => "return",
            Keyword::Sequence => "sequence",
            Keyword::Shortint => "shortint",
            Keyword::Shortreal => "shortreal",
            Keyword::Solve => "solve",
            Keyword::Static => "static",
            Keyword::String => "string",
            Keyword::Struct => "struct",
            Keyword::Super => "super",
            Keyword::Tagged => "tagged",
            Keyword::This => "this",
            Keyword::Throughout => "throughout",
            Keyword::Timeprecision => "timeprecision",
            Keyword::Timeunit => "timeunit",
            Keyword::Type => "type",
            Keyword::Typedef => "typedef",
            Keyword::Union => "union",
            Keyword::Unique => "unique",
            Keyword::Var => "var",
            Keyword::Virtual => "virtual",
            Keyword::Void => "void",
            Keyword::WaitOrder => "wait_order",
            Keyword::Wildcard => "wildcard",
            Keyword::With => "with",
            Keyword::Within => "within",
            Keyword::AcceptOn => "accept_on",
            Keyword::Checker => "checker",
            Keyword::Endchecker => "endchecker",
            Keyword::Eventually => "eventually",
            Keyword::Global => "global",
            Keyword::Implies => "implies",
            Keyword::Let => "let",
            Keyword::Nexttime => "nexttime",
            Keyword::RejectOn => "reject_on",
            Keyword::Restrict => "restrict",
            Keyword::SAlways => "s_always",
            Keyword::SEventually => "s_eventually",
            Keyword::SNexttime => "s_nexttime",
            Keyword::SUntil => "s_until",
            Keyword::SUntilWith => "s_until_with",
            Keyword::Strong => "strong",
            Keyword::SyncAcceptOn => "sync_accept_on",
            Keyword::SyncRejectOn => "sync_reject_on",
            Keyword::Unique0 => "unique0",
            Keyword::Until => "until",
            Keyword::UntilWith => "until_with",
            Keyword::Untyped => "untyped",
            Keyword::Weak => "weak",
            Keyword::Implements => "implements",
            Keyword::Interconnect => "interconnect",
            Keyword::Nettype => "nettype",
            Keyword::Soft => "soft",
            Keyword::PathpulseDollar => "PATHPULSE$",
        }
    }

    /// The group of standards that first reserved the keyword: 0 for
    /// 1364-1995, 1 for 1364-2001, 2 for the configuration keywords of
    /// 1364-2001, 3 for 1364-2005, 4 for 1800-2005, 5 for 1800-2009 and 6
    /// for 1800-2012
    pub open spec fn group(self) -> u8 {
        match self {
            Keyword::Always => 0u8,
            Keyword::And => 0u8,
            Keyword::Assign => 0u8,
            Keyword::Begin => 0u8,
            Keyword::Buf => 0u8,
            Keyword::Bufif0 => 0u8,
            Keyword::Bufif1 => 0u8,
            Keyword::Case => 0u8,
            Keyword::Casex => 0u8,
            Keyword::Casez => 0u8,
            Keyword::Cmos => 0u8,
            Keyword::Deassign => 0u8,
            Keyword::Default => 0u8,
            Keyword::Defparam => 0u8,
            Keyword::Disable => 0u8,
            Keyword::Edge => 0u8,
            Keyword::Else => 0u8,
            Keyword::End => 0u8,
            Keyword::Endcase => 0u8,
            Keyword::Endfunction => 0u8,
            Keyword::Endmodule => 0u8,
            Keyword::Endprimitive => 0u8,
            Keyword::Endspecify => 0u8,
            Keyword::Endtable => 0u8,
            Keyword::Endtask => 0u8,
            Keyword::Event => 0u8,
            Keyword::For => 0u8,
            Keyword::Force => 0u8,
            Keyword::Forever => 0u8,
            Keyword::Fork => 0u8,
            Keyword::Function => 0u8,
            Keyword::Highz0 => 0u8,
            Keyword::Highz1 => 0u8,
            Keyword::If => 0u8,
            Keyword::Ifnone => 0u8,
            Keyword::Initial => 0u8,
            Keyword::Inout => 0u8,
            Keyword::Input => 0u8,
            Keyword::Integer => 0u8,
            Keyword::Join => 0u8,
            Keyword::Large => 0u8,
            Keyword::Macromodule => 0u8,
            Keyword::Medium => 0u8,
            Keyword::Module => 0u8,
            Keyword::Nand => 0u8,
            Keyword::Negedge => 0u8,
            Keyword::Nmos => 0u8,
            Keyword::Nor => 0u8,
            Keyword::Not => 0u8,
            Keyword::Notif0 => 0u8,
            Keyword::Notif1 => 0u8,
            Keyword::Or => 0u8,
            Keyword::Output => 0u8,
            Keyword::Parameter => 0u8,
            Keyword::Pmos => 0u8,
            Keyword::Posedge => 0u8,
            Keyword::Primitive => 0u8,
            Keyword::Pull0 => 0u8,
            Keyword::Pull1 => 0u8,
            Keyword::Pulldown => 0u8,
            Keyword::Pullup => 0u8,
            Keyword::Rcmos => 0u8,
            Keyword::Real => 0u8,
            Keyword::Realtime => 0u8,
            Keyword::Reg => 0u8,
            Keyword::Release => 0u8,
            Keyword::Repeat => 0u8,
            Keyword::Rnmos => 0u8,
            Keyword::Rpmos => 0u8,
            Keyword::Rtran => 0u8,
            Keyword::Rtranif0 => 0u8,
            Keyword::Rtranif1 => 0u8,
            Keyword::Scalared => 0u8,
            Keyword::Small => 0u8,
            Keyword::Specify => 0u8,
            Keyword::Specparam => 0u8,
            Keyword::Strong0 => 0u8,
            Keyword::Strong1 => 0u8,
            Keyword::Supply0 => 0u8,
            Keyword::Supply1 => 0u8,
            Keyword::Table => 0u8,
            Keyword::Task => 0u8,
            Keyword::Time => 0u8,
            Keyword::Tran => 0u8,
            Keyword::Tranif0 => 0u8,
            Keyword::Tranif1 => 0u8,
            Keyword::Tri => 0u8,
            Keyword::Tri0 => 0u8,
            Keyword::Tri1 => 0u8,
            Keyword::Triand => 0u8,
            Keyword::Trior => 0u8,
            Keyword::Trireg => 0u8,
            Keyword::Vectored => 0u8,
            Keyword::Wait => 0u8,
            Keyword::Wand => 0u8,
            Keyword::Weak0 => 0u8,
            Keyword::Weak1 => 0u8,
            Keyword::While => 0u8,
            Keyword::Wire => 0u8,
            Keyword::Wor => 0u8,
            Keyword::Xnor => 0u8,
            Keyword::Xor => 0u8,
            Keyword::Automatic => 1u8,
            Keyword::Cell => 2u8,
            Keyword::Config => 2u8,
            Keyword::Design => 2u8,
            Keyword::Endconfig => 2u8,
            Keyword::Endgenerate => 1u8,
            Keyword::Generate => 1u8,
            Keyword::Genvar => 1u8,
            Keyword::Incdir => 2u8,
            Keyword::Include => 2u8,
            Keyword::Instance => 2u8,
            Keyword::Liblist => 2u8,
            Keyword::Library => 2u8,
            Keyword::Localparam => 1u8,
            Keyword::Noshowcancelled => 1u8,
            Keyword::PulsestyleOndetect => 1u8,
            Keyword::PulsestyleOnevent => 1u8,
            Keyword::Showcancelled => 1u8,
            Keyword::Signed => 1u8,
            Keyword::Unsigned => 1u8,
            Keyword::Use => 2u8,
            Keyword::Uwire => 3u8,
            Keyword::Alias => 4u8,
            Keyword::AlwaysComb => 4u8,
            Keyword::AlwaysFf => 4u8,
            Keyword::AlwaysLatch => 4u8,
            Keyword::Assert => 4u8,
            Keyword::Assume => 4u8,
            Keyword::Before => 4u8,
            Keyword::Bind => 4u8,
            Keyword::Bins => 4u8,
            Keyword::Binsof => 4u8,
            Keyword::Bit => 4u8,
            Keyword::Break => 4u8,
            Keyword::Byte => 4u8,
            Keyword::Chandle => 4u8,
            Keyword::Class => 4u8,
            Keyword::Clocking => 4u8,
            Keyword::Const => 4u8,
            Keyword::Constraint => 4u8,
            Keyword::Context => 4u8,
            Keyword::Continue => 4u8,
            Keyword::Cover => 4u8,
            Keyword::Covergroup => 4u8,
            Keyword::Coverpoint => 4u8,
            Keyword::Cross => 4u8,
            Keyword::Dist => 4u8,
            Keyword::Do => 4u8,
            Keyword::Endclass => 4u8,
            Keyword::Endclocking => 4u8,
            Keyword::Endgroup => 4u8,
            Keyword::Endinterface => 4u8,
            Keyword::Endpackage => 4u8,
            Keyword::Endprogram => 4u8,
            Keyword::Endproperty => 4u8,
            Keyword::Endsequence => 4u8,
            Keyword::Enum => 4u8,
            Keyword::Expect => 4u8,
            Keyword::Export => 4u8,
            Keyword::Extends => 4u8,
            Keyword::Extern => 4u8,
            Keyword::Final => 4u8,
            Keyword::FirstMatch => 4u8,
            Keyword::Foreach => 4u8,
            Keyword::Forkjoin => 4u8,
            Keyword::Iff => 4u8,
            Keyword::IgnoreBins => 4u8,
            Keyword::IllegalBins => 4u8,
            Keyword::Import => 4u8,
            Keyword::Inside => 4u8,
            Keyword::Int => 4u8,
            Keyword::Interface => 4u8,
            Keyword::Intersect => 4u8,
            Keyword::JoinAny => 4u8,
            Keyword::JoinNone => 4u8,
            Keyword::Local => 4u8,
            Keyword::Logic => 4u8,
            Keyword::Longint => 4u8,
            Keyword::Matches => 4u8,
            Keyword::Modport => 4u8,
            Keyword::New => 4u8,
            Keyword::Null => 4u8,
            Keyword::Package => 4u8,
            Keyword::Packed => 4u8,
            Keyword::Priority => 4u8,
            Keyword::Program => 4u8,
            Keyword::Property => 4u8,
            Keyword::Protected => 4u8,
            Keyword::Pure => 4u8,
            Keyword::Rand => 4u8,
            Keyword::Randc => 4u8,
            Keyword::Randcase => 4u8,
            Keyword::Randsequence => 4u8,
            Keyword::Ref => 4u8,
            Keyword::Return => 4u8,
            Keyword::Sequence => 4u8,
            Keyword::Shortint => 4u8,
            Keyword::Shortreal => 4u8,
            Keyword::Solve => 4u8,
            Keyword::Static => 4u8,
            Keyword::String => 4u8,
            Keyword::Struct => 4u8,
            Keyword::Super => 4u8,
            Keyword::Tagged => 4u8,
            Keyword::This => 4u8,
            Keyword::Throughout => 4u8,
            Keyword::Timeprecision => 4u8,
            Keyword::Timeunit => 4u8,
            Keyword::Type => 4u8,
            Keyword::Typedef => 4u8,
            Keyword::Union => 4u8,
            Keyword::Unique => 4u8,
            Keyword::Var => 4u8,
            Keyword::Virtual => 4u8,
            Keyword::Void => 4u8,
            Keyword::WaitOrder => 4u8,
            Keyword::Wildcard => 4u8,
            Keyword::With => 4u8,
            Keyword::Within => 4u8,
            Keyword::AcceptOn => 5u8,
            Keyword::Checker => 5u8,
            Keyword::Endchecker => 5u8,
            Keyword::Eventually => 5u8,
            Keyword::Global => 5u8,
            Keyword::Implies => 5u8,
            Keyword::Let => 5u8,
            Keyword::Nexttime => 5u8,
            Keyword::RejectOn => 5u8,
            Keyword::Restrict => 5u8,
            Keyword::SAlways => 5u8,
            Keyword::SEventually => 5u8,
            Keyword::SNexttime => 5u8,
            Keyword::SUntil => 5u8,
            Keyword::SUntilWith => 5u8,
            Keyword::Strong => 5u8,
            Keyword::SyncAcceptOn => 5u8,
            Keyword::SyncRejectOn => 5u8,
            Keyword::Unique0 => 5u8,
            Keyword::Until => 5u8,
            Keyword::UntilWith => 5u8,
            Keyword::Untyped => 5u8,
            Keyword::Weak => 5u8,
            Keyword::Implements => 6u8,
            Keyword::Interconnect => 6u8,
            Keyword::Nettype => 6u8,
            Keyword::Soft => 6u8,
            Keyword::PathpulseDollar => 0u8,
        }
    }

    pub fn get_group(&self) -> (r: u8)
        ensures
            r == self.group(),
    {
        match self {
            Keyword::Always => 0,
            Keyword::And => 0,
            Keyword::Assign => 0,
            Keyword::Begin => 0,
            Keyword::Buf => 0,
            Keyword::Bufif0 => 0,
            Keyword::Bufif1 => 0,
            Keyword::Case => 0,
            Keyword::Casex => 0,
            Keyword::Casez => 0,
            Keyword::Cmos => 0,
            Keyword::Deassign => 0,
            Keyword::Default => 0,
            Keyword::Defparam => 0,
            Keyword::Disable => 0,
            Keyword::Edge => 0,
            Keyword::Else => 0,
            Keyword::End => 0,
            Keyword::Endcase => 0,
            Keyword::Endfunction => 0,
            Keyword::Endmodule => 0,
            Keyword::Endprimitive => 0,
            Keyword::Endspecify => 0,
            Keyword::Endtable => 0,
            Keyword::Endtask => 0,
            Keyword::Event => 0,
            Keyword::For => 0,
            Keyword::Force => 0,
            Keyword::Forever => 0,
            Keyword::Fork => 0,
            Keyword::Function => 0,
            Keyword::Highz0 => 0,
            Keyword::Highz1 => 0,
            Keyword::If => 0,
            Keyword::Ifnone => 0,
            Keyword::Initial => 0,
            Keyword::Inout => 0,
            Keyword::Input => 0,
            Keyword::Integer => 0,
            Keyword::Join => 0,
            Keyword::Large => 0,
            Keyword::Macromodule => 0,
            Keyword::Medium => 0,
            Keyword::Module => 0,
            Keyword::Nand => 0,
            Keyword::Negedge => 0,
            Keyword::Nmos => 0,
            Keyword::Nor => 0,
            Keyword::Not => 0,
            Keyword::Notif0 => 0,
            Keyword::Notif1 => 0,
            Keyword::Or => 0,
            Keyword::Output => 0,
            Keyword::Parameter => 0,
            Keyword::Pmos => 0,
            Keyword::Posedge => 0,
            Keyword::Primitive => 0,
            Keyword::Pull0 => 0,
            Keyword::Pull1 => 0,
            Keyword::Pulldown => 0,
            Keyword::Pullup => 0,
            Keyword::Rcmos => 0,
            Keyword::Real => 0,
            Keyword::Realtime => 0,
            Keyword::Reg => 0,
            Keyword::Release => 0,
            Keyword::Repeat => 0,
            Keyword::Rnmos => 0,
            Keyword::Rpmos => 0,
            Keyword::Rtran => 0,
            Keyword::Rtranif0 => 0,
            Keyword::Rtranif1 => 0,
            Keyword::Scalared => 0,
            Keyword::Small => 0,
            Keyword::Specify => 0,
            Keyword::Specparam => 0,
            Keyword::Strong0 => 0,
            Keyword::Strong1 => 0,
            Keyword::Supply0 => 0,
            Keyword::Supply1 => 0,
            Keyword::Table => 0,
            Keyword::Task => 0,
            Keyword::Time => 0,
            Keyword::Tran => 0,
            Keyword::Tranif0 => 0,
            Keyword::Tranif1 => 0,
            Keyword::Tri => 0,
            Keyword::Tri0 => 0,
            Keyword::Tri1 => 0,
            Keyword::Triand => 0,
            Keyword::Trior => 0,
            Keyword::Trireg => 0,
            Keyword::Vectored => 0,
            Keyword::Wait => 0,
            Keyword::Wand => 0,
            Keyword::Weak0 => 0,
            Keyword::Weak1 => 0,
            Keyword::While => 0,
            Keyword::Wire => 0,
            Keyword::Wor => 0,
            Keyword::Xnor => 0,
            Keyword::Xor => 0,
            Keyword::Automatic => 1,
            Keyword::Cell => 2,
            Keyword::Config => 2,
            Keyword::Design => 2,
            Keyword::Endconfig => 2,
            Keyword::Endgenerate => 1,
            Keyword::Generate => 1,
            Keyword::Genvar => 1,
            Keyword::Incdir => 2,
            Keyword::Include => 2,
            Keyword::Instance => 2,
            Keyword::Liblist => 2,
            Keyword::Library => 2,
            Keyword::Localparam => 1,
            Keyword::Noshowcancelled => 1,
            Keyword::PulsestyleOndetect => 1,
            Keyword::PulsestyleOnevent => 1,
            Keyword::Showcancelled => 1,
            Keyword::Signed => 1,
            Keyword::Unsigned => 1,
            Keyword::Use => 2,
            Keyword::Uwire => 3,
            Keyword::Alias => 4,
            Keyword::AlwaysComb => 4,
            Keyword::AlwaysFf => 4,
            Keyword::AlwaysLatch => 4,
            Keyword::Assert => 4,
            Keyword::Assume => 4,
            Keyword::Before => 4,
            Keyword::Bind => 4,
            Keyword::Bins => 4,
            Keyword::Binsof => 4,
            Keyword::Bit => 4,
            Keyword::Break => 4,
            Keyword::Byte => 4,
            Keyword::Chandle => 4,
            Keyword::Class => 4,
            Keyword::Clocking => 4,
            Keyword::Const => 4,
            Keyword::Constraint => 4,
            Keyword::Context => 4,
            Keyword::Continue => 4,
            Keyword::Cover => 4,
            Keyword::Covergroup => 4,
            Keyword::Coverpoint => 4,
            Keyword::Cross => 4,
            Keyword::Dist => 4,
            Keyword::Do => 4,
            Keyword::Endclass => 4,
            Keyword::Endclocking => 4,
            Keyword::Endgroup => 4,
            Keyword::Endinterface => 4,
            Keyword::Endpackage => 4,
            Keyword::Endprogram => 4,
            Keyword::Endproperty => 4,
            Keyword::Endsequence => 4,
            Keyword::Enum => 4,
            Keyword::Expect => 4,
            Keyword::Export => 4,
            Keyword::Extends => 4,
            Keyword::Extern => 4,
            Keyword::Final => 4,
            Keyword::FirstMatch => 4,
            Keyword::Foreach => 4,
            Keyword::Forkjoin => 4,
            Keyword::Iff => 4,
            Keyword::IgnoreBins => 4,
            Keyword::IllegalBins => 4,
            Keyword::Import => 4,
            Keyword::Inside => 4,
            Keyword::Int => 4,
            Keyword::Interface => 4,
            Keyword::Intersect => 4,
            Keyword::JoinAny => 4,
            Keyword::JoinNone => 4,
            Keyword::Local => 4,
            Keyword::Logic => 4,
            Keyword::Longint => 4,
            Keyword::Matches => 4,
            Keyword::Modport => 4,
            Keyword::New => 4,
            Keyword::Null => 4,
            Keyword::Package => 4,
            Keyword::Packed => 4,
            Keyword::Priority => 4,
            Keyword::Program => 4,
            Keyword::Property => 4,
            Keyword::Protected => 4,
            Keyword::Pure => 4,
            Keyword::Rand => 4,
            Keyword::Randc => 4,
            Keyword::Randcase => 4,
            Keyword::Randsequence => 4,
            Keyword::Ref => 4,
            Keyword::Return => 4,
            Keyword::Sequence => 4,
            Keyword::Shortint => 4,
            Keyword::Shortreal => 4,
            Keyword::Solve => 4,
            Keyword::Static => 4,
            Keyword::String => 4,
            Keyword::Struct => 4,
            Keyword::Super => 4,
            Keyword::Tagged => 4,
            Keyword::This => 4,
            Keyword::Throughout => 4,
            Keyword::Timeprecision => 4,
            Keyword::Timeunit => 4,
            Keyword::Type => 4,
            Keyword::Typedef => 4,
            Keyword::Union => 4,
            Keyword::Unique => 4,
            Keyword::Var => 4,
            Keyword::Virtual => 4,
            Keyword::Void => 4,
            Keyword::WaitOrder => 4,
            Keyword::Wildcard => 4,
            Keyword::With => 4,
            Keyword::Within => 4,
            Keyword::AcceptOn => 5,
            Keyword::Checker => 5,
            Keyword::Endchecker => 5,
            Keyword::Eventually => 5,
            Keyword::Global => 5,
            Keyword::Implies => 5,
            Keyword::Let => 5,
            Keyword::Nexttime => 5,
            Keyword::RejectOn => 5,
            Keyword::Restrict => 5,
            Keyword::SAlways => 5,
            Keyword::SEventually => 5,
            Keyword::SNexttime => 5,
            Keyword::SUntil => 5,
            Keyword::SUntilWith => 5,
            Keyword::Strong => 5,
            Keyword::SyncAcceptOn => 5,
            Keyword::SyncRejectOn => 5,
            Keyword::Unique0 => 5,
            Keyword::Until => 5,
            Keyword::UntilWith => 5,
            Keyword::Untyped => 5,
            Keyword::Weak => 5,
            Keyword::Implements => 6,
            Keyword::Interconnect => 6,
            Keyword::Nettype => 6,
            Keyword::Soft => 6,
            Keyword::PathpulseDollar => 0,
        }
    }

    /// The position of the keyword in the list of all keywords
    pub open spec fn index(self) -> int {
        match self {
            Keyword::Always => 0,
            Keyword::And => 1,
            Keyword::Assign => 2,
            Keyword::Begin => 3,
            Keyword::Buf => 4,
            Keyword::Bufif0 => 5,
            Keyword::Bufif1 => 6,
            Keyword::Case => 7,
            Keyword::Casex => 8,
            Keyword::Casez => 9,
            Keyword::Cmos => 10,
            Keyword::Deassign => 11,
            Keyword::Default => 12,
            Keyword::Defparam => 13,
            Keyword::Disable => 14,
            Keyword::Edge => 15,
            Keyword::Else => 16,
            Keyword::End => 17,
            Keyword::Endcase => 18,
            Keyword::Endfunction => 19,
            Keyword::Endmodule => 20,
            Keyword::Endprimitive => 21,
            Keyword::Endspecify => 22,
            Keyword::Endtable => 23,
            Keyword::Endtask => 24,
            Keyword::Event => 25,
            Keyword::For => 26,
            Keyword::Force => 27,
            Keyword::Forever => 28,
            Keyword::Fork => 29,
            Keyword::Function => 30,
            Keyword::Highz0 => 31,
            Keyword::Highz1 => 32,
            Keyword::If => 33,
            Keyword::Ifnone => 34,
            Keyword::Initial => 35,
            Keyword::Inout => 36,
            Keyword::Input => 37,
            Keyword::Integer => 38,
            Keyword::Join => 39,
            Keyword::Large => 40,
            Keyword::Macromodule => 41,
            Keyword::Medium => 42,
            Keyword::Module => 43,
            Keyword::Nand => 44,
            Keyword::Negedge => 45,
            Keyword::Nmos => 46,
            Keyword::Nor => 47,
            Keyword::Not => 48,
            Keyword::Notif0 => 49,
            Keyword::Notif1 => 50,
            Keyword::Or => 51,
            Keyword::Output => 52,
            Keyword::Parameter => 53,
            Keyword::Pmos => 54,
            Keyword::Posedge => 55,
            Keyword::Primitive => 56,
            Keyword::Pull0 => 57,
            Keyword::Pull1 => 58,
            Keyword::Pulldown => 59,
            Keyword::Pullup => 60,
            Keyword::Rcmos => 61,
            Keyword::Real => 62,
            Keyword::Realtime => 63,
            Keyword::Reg => 64,
            Keyword::Release => 65,
            Keyword::Repeat => 66,
            Keyword::Rnmos => 67,
            Keyword::Rpmos => 68,
            Keyword::Rtran => 69,
            Keyword::Rtranif0 => 70,
            Keyword::Rtranif1 => 71,
            Keyword::Scalared => 72,
            Keyword::Small => 73,
            Keyword::Specify => 74,
            Keyword::Specparam => 75,
            Keyword::Strong0 => 76,
            Keyword::Strong1 => 77,
            Keyword::Supply0 => 78,
            Keyword::Supply1 => 79,
            Keyword::Table => 80,
            Keyword::Task => 81,
            Keyword::Time => 82,
            Keyword::Tran => 83,
            Keyword::Tranif0 => 84,
            Keyword::Tranif1 => 85,
            Keyword::Tri => 86,
            Keyword::Tri0 => 87,
            Keyword::Tri1 => 88,
            Keyword::Triand => 89,
            Keyword::Trior => 90,
            Keyword::Trireg => 91,
            Keyword::Vectored => 92,
            Keyword::Wait => 93,
            Keyword::Wand => 94,
            Keyword::Weak0 => 95,
            Keyword::Weak1 => 96,
            Keyword::While => 97,
            Keyword::Wire => 98,
            Keyword::Wor => 99,
            Keyword::Xnor => 100,
            Keyword::Xor => 101,
            Keyword::Automatic => 102,
            Keyword::Cell => 103,
            Keyword::Config => 104,
            Keyword::Design => 105,
            Keyword::Endconfig => 106,
            Keyword::Endgenerate => 107,
            Keyword::Generate => 108,
            Keyword::Genvar => 109,
            Keyword::Incdir => 110,
            Keyword::Include => 111,
            Keyword::Instance => 112,
            Keyword::Liblist => 113,
            Keyword::Library => 114,
            Keyword::Localparam => 115,
            Keyword::Noshowcancelled => 116,
            Keyword::PulsestyleOndetect => 117,
            Keyword::PulsestyleOnevent => 118,
            Keyword::Showcancelled => 119,
            Keyword::Signed => 120,
            Keyword::Unsigned => 121,
            Keyword::Use => 122,
            Keyword::Uwire => 123,
            Keyword::Alias => 124,
            Keyword::AlwaysComb => 125,
            Keyword::AlwaysFf => 126,
            Keyword::AlwaysLatch => 127,
            Keyword::Assert => 128,
            Keyword::Assume => 129,
            Keyword::Before => 130,
            Keyword::Bind => 131,
            Keyword::Bins => 132,
            Keyword::Binsof => 133,
            Keyword::Bit => 134,
            Keyword::Break => 135,
            Keyword::Byte => 136,
            Keyword::Chandle => 137,
            Keyword::Class => 138,
            Keyword::Clocking => 139,
            Keyword::Const => 140,
            Keyword::Constraint => 141,
            Keyword::Context => 142,
            Keyword::Continue => 143,
            Keyword::Cover => 144,
            Keyword::Covergroup => 145,
            Keyword::Coverpoint => 146,
            Keyword::Cross => 147,
            Keyword::Dist => 148,
            Keyword::Do => 149,
            Keyword::Endclass => 150,
            Keyword::Endclocking => 151,
            Keyword::Endgroup => 152,
            Keyword::Endinterface => 153,
            Keyword::Endpackage => 154,
            Keyword::Endprogram => 155,
            Keyword::Endproperty => 156,
            Keyword::Endsequence => 157,
            Keyword::Enum => 158,
            Keyword::Expect => 159,
            Keyword::Export => 160,
            Keyword::Extends => 161,
            Keyword::Extern => 162,
            Keyword::Final => 163,
            Keyword::FirstMatch => 164,
            Keyword::Foreach => 165,
            Keyword::Forkjoin => 166,
            Keyword::Iff => 167,
            Keyword::IgnoreBins => 168,
            Keyword::IllegalBins => 169,
            Keyword::Import => 170,
            Keyword::Inside => 171,
            Keyword::Int => 172,
            Keyword::Interface => 173,
            Keyword::Intersect => 174,
            Keyword::JoinAny => 175,
            Keyword::JoinNone => 176,
            Keyword::Local => 177,
            Keyword::Logic => 178,
            Keyword::Longint => 179,
            Keyword::Matches => 180,
            Keyword::Modport => 181,
            Keyword::New => 182,
            Keyword::Null => 183,
            Keyword::Package => 184,
            Keyword::Packed => 185,
            Keyword::Priority => 186,
            Keyword::Program => 187,
            Keyword::Property => 188,
            Keyword::Protected => 189,
            Keyword::Pure => 190,
            Keyword::Rand => 191,
            Keyword::Randc => 192,
            Keyword::Randcase => 193,
            Keyword::Randsequence => 194,
            Keyword::Ref => 195,
            Keyword::Return => 196,
            Keyword::Sequence => 197,
            Keyword::Shortint => 198,
            Keyword::Shortreal => 199,
            Keyword::Solve => 200,
            Keyword::Static => 201,
            Keyword::String => 202,
            Keyword::Struct => 203,
            Keyword::Super => 204,
            Keyword::Tagged => 205,
            Keyword::This => 206,
            Keyword::Throughout => 207,
            Keyword::Timeprecision => 208,
            Keyword::Timeunit => 209,
            Keyword::Type => 210,
            Keyword::Typedef => 211,
            Keyword::Union => 212,
            Keyword::Unique => 213,
            Keyword::Var => 214,
            Keyword::Virtual => 215,
            Keyword::Void => 216,
            Keyword::WaitOrder => 217,
            Keyword::Wildcard => 218,
            Keyword::With => 219,
            Keyword::Within => 220,
            Keyword::AcceptOn => 221,
            Keyword::Checker => 222,
            Keyword::Endchecker => 223,
            Keyword::Eventually => 224,
            Keyword::Global => 225,
            Keyword::Implies => 226,
            Keyword::Let => 227,
            Keyword::Nexttime => 228,
            Keyword::RejectOn => 229,
            Keyword::Restrict => 230,
            Keyword::SAlways => 231,
            Keyword::SEventually => 232,
            Keyword::SNexttime => 233,
            Keyword::SUntil => 234,
            Keyword::SUntilWith => 235,
            Keyword::Strong => 236,
            Keyword::SyncAcceptOn => 237,
            Keyword::SyncRejectOn => 238,
            Keyword::Unique0 => 239,
            Keyword::Until => 240,
            Keyword::UntilWith => 241,
            Keyword::Untyped => 242,
            Keyword::Weak => 243,
            Keyword::Implements => 244,
            Keyword::Interconnect => 245,
            Keyword::Nettype => 246,
            Keyword::Soft => 247,
            Keyword::PathpulseDollar => 248,
        }
    }

    /// The keyword at a position of the list of all keywords
    #[verifier::opaque]
    pub open spec fn at(i: int) -> Option<Keyword> {
        if i == 0 { Some(Keyword::Always) }
        else if i == 1 { Some(Keyword::And) }
        else if i == 2 { Some(Keyword::Assign) }
        else if i == 3 { Some(Keyword::Begin) }
        else if i == 4 { Some(Keyword::Buf) }
        else if i == 5 { Some(Keyword::Bufif0) }
        else if i == 6 { Some(Keyword::Bufif1) }
        else if i == 7 { Some(Keyword::Case) }
        else if i == 8 { Some(Keyword::Casex) }
        else if i == 9 { Some(Keyword::Casez) }
        else if i == 10 { Some(Keyword::Cmos) }
        else if i == 11 { Some(Keyword::Deassign) }
        else if i == 12 { Some(Keyword::Default) }
        else if i == 13 { Some(Keyword::Defparam) }
        else if i == 14 { Some(Keyword::Disable) }
        else if i == 15 { Some(Keyword::Edge) }
        else if i == 16 { Some(Keyword::Else) }
        else if i == 17 { Some(Keyword::End) }
        else if i == 18 { Some(Keyword::Endcase) }
        else if i == 19 { Some(Keyword::Endfunction) }
        else if i == 20 { Some(Keyword::Endmodule) }
        else if i == 21 { Some(Keyword::Endprimitive) }
        else if i == 22 { Some(Keyword::Endspecify) }
        else if i == 23 { Some(Keyword::Endtable) }
        else if i == 24 { Some(Keyword::Endtask) }
        else if i == 25 { Some(Keyword::Event) }
        else if i == 26 { Some(Keyword::For) }
        else if i == 27 { Some(Keyword::Force) }
        else if i == 28 { Some(Keyword::Forever) }
        else if i == 29 { Some(Keyword::Fork) }
        else if i == 30 { Some(Keyword::Function) }
        else if i == 31 { Some(Keyword::Highz0) }
        else if i == 32 { Some(Keyword::Highz1) }
        else if i == 33 { Some(Keyword::If) }
        else if i == 34 { Some(Keyword::Ifnone) }
        else if i == 35 { Some(Keyword::Initial) }
        else if i == 36 { Some(Keyword::Inout) }
        else if i == 37 { Some(Keyword::Input) }
        else if i == 38 { Some(Keyword::Integer) }
        else if i == 39 { Some(Keyword::Join) }
        else if i == 40 { Some(Keyword::Large) }
        else if i == 41 { Some(Keyword::Macromodule) }
        else if i == 42 { Some(Keyword::Medium) }
        else if i == 43 { Some(Keyword::Module) }
        else if i == 44 { Some(Keyword::Nand) }
        else if i == 45 { Some(Keyword::Negedge) }
        else if i == 46 { Some(Keyword::Nmos) }
        else if i == 47 { Some(Keyword::Nor) }
        else if i == 48 { Some(Keyword::Not) }
        else if i == 49 { Some(Keyword::Notif0) }
        else if i == 50 { Some(Keyword::Notif1) }
        else if i == 51 { Some(Keyword::Or) }
        else if i == 52 { Some(Keyword::Output) }
        else if i == 53 { Some(Keyword::Parameter) }
        else if i == 54 { Some(Keyword::Pmos) }
        else if i == 55 { Some(Keyword::Posedge) }
        else if i == 56 { Some(Keyword::Primitive) }
        else if i == 57 { Some(Keyword::Pull0) }
        else if i == 58 { Some(Keyword::Pull1) }
        else if i == 59 { Some(Keyword::Pulldown) }
        else if i == 60 { Some(Keyword::Pullup) }
        else if i == 61 { Some(Keyword::Rcmos) }
        else if i == 62 { Some(Keyword::Real) }
        else if i == 63 { Some(Keyword::Realtime) }
        else if i == 64 { Some(Keyword::Reg) }
        else if i == 65 { Some(Keyword::Release) }
        else if i == 66 { Some(Keyword::Repeat) }
        else if i == 67 { Some(Keyword::Rnmos) }
        else if i == 68 { Some(Keyword::Rpmos) }
        else if i == 69 { Some(Keyword::Rtran) }
        else if i == 70 { Some(Keyword::Rtranif0) }
        else if i == 71 { Some(Keyword::Rtranif1) }
        else if i == 72 { Some(Keyword::Scalared) }
        else if i == 73 { Some(Keyword::Small) }
        else if i == 74 { Some(Keyword::Specify) }
        else if i == 75 { Some(Keyword::Specparam) }
        else if i == 76 { Some(Keyword::Strong0) }
        else if i == 77 { Some(Keyword::Strong1) }
        else if i == 78 { Some(Keyword::Supply0) }
        else if i == 79 { Some(Keyword::Supply1) }
        else if i == 80 { Some(Keyword::Table) }
        else if i == 81 { Some(Keyword::Task) }
        else if i == 82 { Some(Keyword::Time) }
        else if i == 83 { Some(Keyword::Tran) }
        else if i == 84 { Some(Keyword::Tranif0) }
        else if i == 85 { Some(Keyword::Tranif1) }
        else if i == 86 { Some(Keyword::Tri) }
        else if i == 87 { Some(Keyword::Tri0) }
        else if i == 88 { Some(Keyword::Tri1) }
        else if i == 89 { Some(Keyword::Triand) }
        else if i == 90 { Some(Keyword::Trior) }
        else if i == 91 { Some(Keyword::Trireg) }
        else if i == 92 { Some(Keyword::Vectored) }
        else if i == 93 { Some(Keyword::Wait) }
        else if i == 94 { Some(Keyword::Wand) }
        else if i == 95 { Some(Keyword::Weak0) }
        else if i == 96 { Some(Keyword::Weak1) }
        else if i == 97 { Some(Keyword::While) }
        else if i == 98 { Some(Keyword::Wire) }
        else if i == 99 { Some(Keyword::Wor) }
        else if i == 100 { Some(Keyword::Xnor) }
        else if i == 101 { Some(Keyword::Xor) }
        else if i == 102 { Some(Keyword::Automatic) }
        else if i == 103 { Some(Keyword::Cell) }
        else if i == 104 { Some(Keyword::Config) }
        else if i == 105 { Some(Keyword::Design) }
        else if i == 106 { Some(Keyword::Endconfig) }
        else if i == 107 { Some(Keyword::Endgenerate) }
        else if i == 108 { Some(Keyword::Generate) }
        else if i == 109 { Some(Keyword::Genvar) }
        else if i == 110 { Some(Keyword::Incdir) }
        else if i == 111 { Some(Keyword::Include) }
        else if i == 112 { Some(Keyword::Instance) }
        else if i == 113 { Some(Keyword::Liblist) }
        else if i == 114 { Some(Keyword::Library) }
        else if i == 115 { Some(Keyword::Localparam) }
        else if i == 116 { Some(Keyword::Noshowcancelled) }
        else if i == 117 { Some(Keyword::PulsestyleOndetect) }
        else if i == 118 { Some(Keyword::PulsestyleOnevent) }
        else if i == 119 { Some(Keyword::Showcancelled) }
        else if i == 120 { Some(Keyword::Signed) }
        else if i == 121 { Some(Keyword::Unsigned) }
        else if i == 122 { Some(Keyword::Use) }
        else if i == 123 { Some(Keyword::Uwire) }
        else if i == 124 { Some(Keyword::Alias) }
        else if i == 125 { Some(Keyword::AlwaysComb) }
        else if i == 126 { Some(Keyword::AlwaysFf) }
        else if i == 127 { Some(Keyword::AlwaysLatch) }
        else if i == 128 { Some(Keyword::Assert) }
        else if i == 129 { Some(Keyword::Assume) }
        else if i == 130 { Some(Keyword::Before) }
        else if i == 131 { Some(Keyword::Bind) }
        else if i == 132 { Some(Keyword::Bins) }
        else if i == 133 { Some(Keyword::Binsof) }
        else if i == 134 { Some(Keyword::Bit) }
        else if i == 135 { Some(Keyword::Break) }
        else if i == 136 { Some(Keyword::Byte) }
        else if i == 137 { Some(Keyword::Chandle) }
        else if i == 138 { Some(Keyword::Class) }
        else if i == 139 { Some(Keyword::Clocking) }
        else if i == 140 { Some(Keyword::Const) }
        else if i == 141 { Some(Keyword::Constraint) }
        else if i == 142 { Some(Keyword::Context) }
        else if i == 143 { Some(Keyword::Continue) }
        else if i == 144 { Some(Keyword::Cover) }
        else if i == 145 { Some(Keyword::Covergroup) }
        else if i == 146 { Some(Keyword::Coverpoint) }
        else if i == 147 { Some(Keyword::Cross) }
        else if i == 148 { Some(Keyword::Dist) }
        else if i == 149 { Some(Keyword::Do) }
        else if i == 150 { Some(Keyword::Endclass) }
        else if i == 151 { Some(Keyword::Endclocking) }
        else if i == 152 { Some(Keyword::Endgroup) }
        else if i == 153 { Some(Keyword::Endinterface) }
        else if i == 154 { Some(Keyword::Endpackage) }
        else if i == 155 { Some(Keyword::Endprogram) }
        else if i == 156 { Some(Keyword::Endproperty) }
        else if i == 157 { Some(Keyword::Endsequence) }
        else if i == 158 { Some(Keyword::Enum) }
        else if i == 159 { Some(Keyword::Expect) }
        else if i == 160 { Some(Keyword::Export) }
        else if i == 161 { Some(Keyword::Extends) }
        else if i == 162 { Some(Keyword::Extern) }
        else if i == 163 { Some(Keyword::Final) }
        else if i == 164 { Some(Keyword::FirstMatch) }
        else if i == 165 { Some(Keyword::Foreach) }
        else if i == 166 { Some(Keyword::Forkjoin) }
        else if i == 167 { Some(Keyword::Iff) }
        else if i == 168 { Some(Keyword::IgnoreBins) }
        else if i == 169 { Some(Keyword::IllegalBins) }
        else if i == 170 { Some(Keyword::Import) }
        else if i == 171 { Some(Keyword::Inside) }
        else if i == 172 { Some(Keyword::Int) }
        else if i == 173 { Some(Keyword::Interface) }
        else if i == 174 { Some(Keyword::Intersect) }
        else if i == 175 { Some(Keyword::JoinAny) }
        else if i == 176 { Some(Keyword::JoinNone) }
        else if i == 177 { Some(Keyword::Local) }
        else if i == 178 { Some(Keyword::Logic) }
        else if i == 179 { Some(Keyword::Longint) }
        else if i == 180 { Some(Keyword::Matches) }
        else if i == 181 { Some(Keyword::Modport) }
        else if i == 182 { Some(Keyword::New) }
        else if i == 183 { Some(Keyword::Null) }
        else if i == 184 { Some(Keyword::Package) }
        else if i == 185 { Some(Keyword::Packed) }
        else if i == 186 { Some(Keyword::Priority) }
        else if i == 187 { Some(Keyword::Program) }
        else if i == 188 { Some(Keyword::Property) }
        else if i == 189 { Some(Keyword::Protected) }
        else if i == 190 { Some(Keyword::Pure) }
        else if i == 191 { Some(Keyword::Rand) }
        else if i == 192 { Some(Keyword::Randc) }
        else if i == 193 { Some(Keyword::Randcase) }
        else if i == 194 { Some(Keyword::Randsequence) }
        else if i == 195 { Some(Keyword::Ref) }
        else if i == 196 { Some(Keyword::Return) }
        else if i == 197 { Some(Keyword::Sequence) }
        else if i == 198 { Some(Keyword::Shortint) }
        else if i == 199 { Some(Keyword::Shortreal) }
        else if i == 200 { Some(Keyword::Solve) }
        else if i == 201 { Some(Keyword::Static) }
        else if i == 202 { Some(Keyword::String) }
        else if i == 203 { Some(Keyword::Struct) }
        else if i == 204 { Some(Keyword::Super) }
        else if i == 205 { Some(Keyword::Tagged) }
        else if i == 206 { Some(Keyword::This) }
        else if i == 207 { Some(Keyword::Throughout) }
        else if i == 208 { Some(Keyword::Timeprecision) }
        else if i == 209 { Some(Keyword::Timeunit) }
        else if i == 210 { Some(Keyword::Type) }
        else if i == 211 { Some(Keyword::Typedef) }
        else if i == 212 { Some(Keyword::Union) }
        else if i == 213 { Some(Keyword::Unique) }
        else if i == 214 { Some(Keyword::Var) }
        else if i == 215 { Some(Keyword::Virtual) }
        else if i == 216 { Some(Keyword::Void) }
        else if i == 217 { Some(Keyword::WaitOrder) }
        else if i == 218 { Some(Keyword::Wildcard) }
        else if i == 219 { Some(Keyword::With) }
        else if i == 220 { Some(Keyword::Within) }
        else if i == 221 { Some(Keyword::AcceptOn) }
        else if i == 222 { Some(Keyword::Checker) }
        else if i == 223 { Some(Keyword::Endchecker) }
        else if i == 224 { Some(Keyword::Eventually) }
        else if i == 225 { Some(Keyword::Global) }
        else if i == 226 { Some(Keyword::Implies) }
        else if i == 227 { Some(Keyword::Let) }
        else if i == 228 { Some(Keyword::Nexttime) }
        else if i == 229 { Some(Keyword::RejectOn) }
        else if i == 230 { Some(Keyword::Restrict) }
        else if i == 231 { Some(Keyword::SAlways) }
        else if i == 232 { Some(Keyword::SEventually) }
        else if i == 233 { Some(Keyword::SNexttime) }
        else if i == 234 { Some(Keyword::SUntil) }
        else if i == 235 { Some(Keyword::SUntilWith) }
        else if i == 236 { Some(Keyword::Strong) }
        else if i == 237 { Some(Keyword::SyncAcceptOn) }
        else if i == 238 { Some(Keyword::SyncRejectOn) }
        else if i == 239 { Some(Keyword::Unique0) }
        else if i == 240 { Some(Keyword::Until) }
        else if i == 241 { Some(Keyword::UntilWith) }
        else if i == 242 { Some(Keyword::Untyped) }
        else if i == 243 { Some(Keyword::Weak) }
        else if i == 244 { Some(Keyword::Implements) }
        else if i == 245 { Some(Keyword::Interconnect) }
        else if i == 246 { Some(Keyword::Nettype) }
        else if i == 247 { Some(Keyword::Soft) }
        else if i == 248 { Some(Keyword::PathpulseDollar) }
        else { None }
    }

    pub fn from_index(i: usize) -> (r: Option<Keyword>)
        ensures
            r == Keyword::at(i as int),
    {
        reveal(Keyword::at);
        match i {
            0 => Some(Keyword::Always),
            1 => Some(Keyword::And),
            2 => Some(Keyword::Assign),
            3 => Some(Keyword::Begin),
            4 => Some(Keyword::Buf),
            5 => Some(Keyword::Bufif0),
            6 => Some(Keyword::Bufif1),
            7 => Some(Keyword::Case),
            8 => Some(Keyword::Casex),
            9 => Some(Keyword::Casez),
            10 => Some(Keyword::Cmos),
            11 => Some(Keyword::Deassign),
            12 => Some(Keyword::Default),
            13 => Some(Keyword::Defparam),
            14 => Some(Keyword::Disable),
            15 => Some(Keyword::Edge),
            16 => Some(Keyword::Else),
            17 => Some(Keyword::End),
            18 => Some(Keyword::Endcase),
            19 => Some(Keyword::Endfunction),
            20 => Some(Keyword::Endmodule),
            21 => Some(Keyword::Endprimitive),
            22 => Some(Keyword::Endspecify),
            23 => Some(Keyword::Endtable),
            24 => Some(Keyword::Endtask),
            25 => Some(Keyword::Event),
            26 => Some(Keyword::For),
            27 => Some(Keyword::Force),
            28 => Some(Keyword::Forever),
            29 => Some(Keyword::Fork),
            30 => Some(Keyword::Function),
            31 => Some(Keyword::Highz0),
            32 => Some(Keyword::Highz1),
            33 => Some(Keyword::If),
            34 => Some(Keyword::Ifnone),
            35 => Some(Keyword::Initial),
            36 => Some(Keyword::Inout),
            37 => Some(Keyword::Input),
            38 => Some(Keyword::Integer),
            39 => Some(Keyword::Join),
            40 => Some(Keyword::Large),
            41 => Some(Keyword::Macromodule),
            42 => Some(Keyword::Medium),
            43 => Some(Keyword::Module),
            44 => Some(Keyword::Nand),
            45 => Some(Keyword::Negedge),
            46 => Some(Keyword::Nmos),
            47 => Some(Keyword::Nor),
            48 => Some(Keyword::Not),
            49 => Some(Keyword::Notif0),
            50 => Some(Keyword::Notif1),
            51 => Some(Keyword::Or),
            52 => Some(Keyword::Output),
            53 => Some(Keyword::Parameter),
            54 => Some(Keyword::Pmos),
            55 => Some(Keyword::Posedge),
            56 => Some(Keyword::Primitive),
            57 => Some(Keyword::Pull0),
            58 => Some(Keyword::Pull1),
            59 => Some(Keyword::Pulldown),
            60 => Some(Keyword::Pullup),
            61 => Some(Keyword::Rcmos),
            62 => Some(Keyword::Real),
            63 => Some(Keyword::Realtime),
            64 => Some(Keyword::Reg),
            65 => Some(Keyword::Release),
            66 => Some(Keyword::Repeat),
            67 => Some(Keyword::Rnmos),
            68 => Some(Keyword::Rpmos),
            69 => Some(Keyword::Rtran),
            70 => Some(Keyword::Rtranif0),
            71 => Some(Keyword::Rtranif1),
            72 => Some(Keyword::Scalared),
            73 => Some(Keyword::Small),
            74 => Some(Keyword::Specify),
            75 => Some(Keyword::Specparam),
            76 => Some(Keyword::Strong0),
            77 => Some(Keyword::Strong1),
            78 => Some(Keyword::Supply0),
            79 => Some(Keyword::Supply1),
            80 => Some(Keyword::Table),
            81 => Some(Keyword::Task),
            82 => Some(Keyword::Time),
            83 => Some(Keyword::Tran),
            84 => Some(Keyword::Tranif0),
            85 => Some(Keyword::Tranif1),
            86 => Some(Keyword::Tri),
            87 => Some(Keyword::Tri0),
            88 => Some(Keyword::Tri1),
            89 => Some(Keyword::Triand),
            90 => Some(Keyword::Trior),
            91 => Some(Keyword::Trireg),
            92 => Some(Keyword::Vectored),
            93 => Some(Keyword::Wait),
            94 => Some(Keyword::Wand),
            95 => Some(Keyword::Weak0),
            96 => Some(Keyword::Weak1),
            97 => Some(Keyword::While),
            98 => Some(Keyword::Wire),
            99 => Some(Keyword::Wor),
            100 => Some(Keyword::Xnor),
            101 => Some(Keyword::Xor),
            102 => Some(Keyword::Automatic),
            103 => Some(Keyword::Cell),
            104 => Some(Keyword::Config),
            105 => Some(Keyword::Design),
            106 => Some(Keyword::Endconfig),
            107 => Some(Keyword::Endgenerate),
            108 => Some(Keyword::Generate),
            109 => Some(Keyword::Genvar),
            110 => Some(Keyword::Incdir),
            111 => Some(Keyword::Include),
            112 => Some(Keyword::Instance),
            113 => Some(Keyword::Liblist),
            114 => Some(Keyword::Library),
            115 => Some(Keyword::Localparam),
            116 => Some(Keyword::Noshowcancelled),
            117 => Some(Keyword::PulsestyleOndetect),
            118 => Some(Keyword::PulsestyleOnevent),
            119 => Some(Keyword::Showcancelled),
            120 => Some(Keyword::Signed),
            121 => Some(Keyword::Unsigned),
            122 => Some(Keyword::Use),
            123 => Some(Keyword::Uwire),
            124 => Some(Keyword::Alias),
            125 => Some(Keyword::AlwaysComb),
            126 => Some(Keyword::AlwaysFf),
            127 => Some(Keyword::AlwaysLatch),
            128 => Some(Keyword::Assert),
            129 => Some(Keyword::Assume),
            130 => Some(Keyword::Before),
            131 => Some(Keyword::Bind),
            132 => Some(Keyword::Bins),
            133 => Some(Keyword::Binsof),
            134 => Some(Keyword::Bit),
            135 => Some(Keyword::Break),
            136 => Some(Keyword::Byte),
            137 => Some(Keyword::Chandle),
            138 => Some(Keyword::Class),
            139 => Some(Keyword::Clocking),
            140 => Some(Keyword::Const),
            141 => Some(Keyword::Constraint),
            142 => Some(Keyword::Context),
            143 => Some(Keyword::Continue),
            144 => Some(Keyword::Cover),
            145 => Some(Keyword::Covergroup),
            146 => Some(Keyword::Coverpoint),
            147 => Some(Keyword::Cross),
            148 => Some(Keyword::Dist),
            149 => Some(Keyword::Do),
            150 => Some(Keyword::Endclass),
            151 => Some(Keyword::Endclocking),
            152 => Some(Keyword::Endgroup),
            153 => Some(Keyword::Endinterface),
            154 => Some(Keyword::Endpackage),
            155 => Some(Keyword::Endprogram),
            156 => Some(Keyword::Endproperty),
            157 => Some(Keyword::Endsequence),
            158 => Some(Keyword::Enum),
            159 => Some(Keyword::Expect),
            160 => Some(Keyword::Export),
            161 => Some(Keyword::Extends),
            162 => Some(Keyword::Extern),
            163 => Some(Keyword::Final),
            164 => Some(Keyword::FirstMatch),
            165 => Some(Keyword::Foreach),
            166 => Some(Keyword::Forkjoin),
            167 => Some(Keyword::Iff),
            168 => Some(Keyword::IgnoreBins),
            169 => Some(Keyword::IllegalBins),
            170 => Some(Keyword::Import),
            171 => Some(Keyword::Inside),
            172 => Some(Keyword::Int),
            173 => Some(Keyword::Interface),
            174 => Some(Keyword::Intersect),
            175 => Some(Keyword::JoinAny),
            176 => Some(Keyword::JoinNone),
            177 => Some(Keyword::Local),
            178 => Some(Keyword::Logic),
            179 => Some(Keyword::Longint),
            180 => Some(Keyword::Matches),
            181 => Some(Keyword::Modport),
            182 => Some(Keyword::New),
            183 => Some(Keyword::Null),
            184 => Some(Keyword::Package),
            185 => Some(Keyword::Packed),
            186 => Some(Keyword::Priority),
            187 => Some(Keyword::Program),
            188 => Some(Keyword::Property),
            189 => Some(Keyword::Protected),
            190 => Some(Keyword::Pure),
            191 => Some(Keyword::Rand),
            192 => Some(Keyword::Randc),
            193 => Some(Keyword::Randcase),
            194 => Some(Keyword::Randsequence),
            195 => Some(Keyword::Ref),
            196 => Some(Keyword::Return),
            197 => Some(Keyword::Sequence),
            198 => Some(Keyword::Shortint),
            199 => Some(Keyword::Shortreal),
            200 => Some(Keyword::Solve),
            201 => Some(Keyword::Static),
            202 => Some(Keyword::String),
            203 => Some(Keyword::Struct),
            204 => Some(Keyword::Super),
            205 => Some(Keyword::Tagged),
            206 => Some(Keyword::This),
            207 => Some(Keyword::Throughout),
            208 => Some(Keyword::Timeprecision),
            209 => Some(Keyword::Timeunit),
            210 => Some(Keyword::Type),
            211 => Some(Keyword::Typedef),
            212 => Some(Keyword::Union),
            213 => Some(Keyword::Unique),
            214 => Some(Keyword::Var),
            215 => Some(Keyword::Virtual),
            216 => Some(Keyword::Void),
            217 => Some(Keyword::WaitOrder),
            218 => Some(Keyword::Wildcard),
            219 => Some(Keyword::With),
            220 => Some(Keyword::Within),
            221 => Some(Keyword::AcceptOn),
            222 => Some(Keyword::Checker),
            223 => Some(Keyword::Endchecker),
            224 => Some(Keyword::Eventually),
            225 => Some(Keyword::Global),
            226 => Some(Keyword::Implies),
            227 => Some(Keyword::Let),
            228 => Some(Keyword::Nexttime),
            229 => Some(Keyword::RejectOn),
            230 => Some(Keyword::Restrict),
            231 => Some(Keyword::SAlways),
            232 => Some(Keyword::SEventually),
            233 => Some(Keyword::SNexttime),
            234 => Some(Keyword::SUntil),
            235 => Some(Keyword::SUntilWith),
            236 => Some(Keyword::Strong),
            237 => Some(Keyword::SyncAcceptOn),
            238 => Some(Keyword::SyncRejectOn),
            239 => Some(Keyword::Unique0),
            240 => Some(Keyword::Until),
            241 => Some(Keyword::UntilWith),
            242 => Some(Keyword::Untyped),
            243 => Some(Keyword::Weak),
            244 => Some(Keyword::Implements),
            245 => Some(Keyword::Interconnect),
            246 => Some(Keyword::Nettype),
            247 => Some(Keyword::Soft),
            248 => Some(Keyword::PathpulseDollar),
            _ => None,
        }
    }

    /// The keyword found at a position has that position
    pub proof fn lemma_at(i: int)
        ensures
            Keyword::at(i) matches Some(k) ==> k.index() == i,
    {
        reveal(Keyword::at);
    }

    /// Every keyword stands in the list at its own position
    pub proof fn lemma_index(self)
        ensures
            0 <= self.index() < KEYWORD_COUNT,
            Keyword::at(self.index()) == Some(self),
    {
        reveal(Keyword::at);
    }

    /// Whether a standard reserves this keyword
    pub open spec fn reserved_in(self, standard: KeywordStandard) -> bool {
        let g = self.group();
        match standard {
            KeywordStandard::V1364_1995 => g == 0,
            KeywordStandard::V1364_2001 => g <= 2,
            KeywordStandard::V1364_2001Noconfig => g <= 1,
            KeywordStandard::V1364_2005 => g <= 3,
            KeywordStandard::V1800_2005 => g <= 4,
            KeywordStandard::V1800_2009 => g <= 5,
            _ => g <= 6,
        }
    }

    pub fn is_reserved_in(&self, standard: KeywordStandard) -> (r: bool)
        ensures
            r == self.reserved_in(standard),
    {
        let g = self.get_group();
        match standard {
            KeywordStandard::V1364_1995 => g == 0,
            KeywordStandard::V1364_2001 => g <= 2,
            KeywordStandard::V1364_2001Noconfig => g <= 1,
            KeywordStandard::V1364_2005 => g <= 3,
            KeywordStandard::V1800_2005 => g <= 4,
            KeywordStandard::V1800_2009 => g <= 5,
            _ => g <= 6,
        }
    }
}

} // verus!
