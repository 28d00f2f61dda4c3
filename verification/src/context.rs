//! What a run holds on to: the bindings of its mappings.
use crate::clickhouse_message_binding::MessageBinding;
use crate::clickhouse_table::qualified_name;
use crate::find::{first_where, lemma_first_where, lemma_first_where_is, lemma_first_where_none};
use crate::text::{same_text, texts};
use vstd::prelude::*;
use vstd::string::*;

verus! {

/// The bindings of a run, each under the full name of its message type.
#[derive(Debug)]
pub struct Registry {
    /// The bindings, in the order in which they were made.
    pub bindings: Vec<MessageBinding>,
}

/// The place of the binding of the message type `full_name`.
pub open spec fn binding_named(bindings: Seq<MessageBinding>, full_name: Seq<char>) -> Option<int> {
    first_where(bindings, |b: MessageBinding| b.full_name@ == full_name)
}

/// No two bindings are of the same message type.
pub open spec fn names_distinct(bindings: Seq<MessageBinding>) -> bool {
    forall|i: int, j: int|
        0 <= i < j < bindings.len() ==> (#[trigger] bindings[i]).full_name@ != (
        #[trigger] bindings[j]).full_name@
}

impl Registry {
    /// No message type is bound twice, and every binding is well formed.
    pub open spec fn wf(&self) -> bool {
        &&& names_distinct(self.bindings@)
        &&& forall|i: int| 0 <= i < self.bindings@.len() ==> (#[trigger] self.bindings@[i]).wf()
    }

    /// A registry without bindings.
    pub fn new() -> (registry: Registry)
        ensures
            registry.bindings@.len() == 0,
            registry.wf(),
    {
        Registry { bindings: Vec::new() }
    }

    fn position(&self, full_name: &str) -> (found: Option<usize>)
        ensures
            match found {
                Some(i) => binding_named(self.bindings@, full_name@) == Some(i as int) && i
                    < self.bindings@.len(),
                None => binding_named(self.bindings@, full_name@) is None,
            },
    {
        let ghost p = |b: MessageBinding| b.full_name@ == full_name@;
        let mut i: usize = 0;
        while i < self.bindings.len()
            invariant
                i <= self.bindings@.len(),
                p == |b: MessageBinding| b.full_name@ == full_name@,
                forall|j: int| 0 <= j < i ==> !p(self.bindings@[j]),
            decreases self.bindings.len() - i,
        {
            if same_text(self.bindings[i].full_name.as_str(), full_name) {
                proof {
                    lemma_first_where_is(self.bindings@, p, i as int);
                }
                return Some(i);
            }
            i = i + 1;
        }
        proof {
            lemma_first_where_none(self.bindings@, p);
        }
        None
    }

    /// The binding of the message type `full_name`.
    pub fn get(&self, full_name: &str) -> (found: Option<&MessageBinding>)
        ensures
            match found {
                Some(binding) => binding_named(self.bindings@, full_name@) matches Some(i)
                    && self.bindings@[i] == *binding,
                None => binding_named(self.bindings@, full_name@) is None,
            },
            self.wf() ==> (found matches Some(binding) ==> binding.wf()),
    {
        match self.position(full_name) {
            Some(i) => Some(&self.bindings[i]),
            None => None,
        }
    }

    /// Puts `binding` under the name of its message type: in the place of the
    /// binding that stood there, or behind the others.
    pub fn insert(&mut self, binding: MessageBinding)
        ensures
            old(self).wf() && binding.wf() ==> final(self).wf(),
            final(self).bindings@ == match binding_named(old(self).bindings@, binding.full_name@) {
                Some(i) => old(self).bindings@.update(i, binding),
                None => old(self).bindings@.push(binding),
            },
    {
        let ghost p = |b: MessageBinding| b.full_name@ == binding.full_name@;
        proof {
            lemma_first_where(self.bindings@, p);
        }
        match self.position(binding.full_name.as_str()) {
            Some(i) => {
                self.bindings[i] = binding;
            },
            None => {
                self.bindings.push(binding);
            },
        }
    }
}

/// What a run holds on to.
#[derive(Debug)]
pub struct AppContext {
    /// The bindings of the run's mappings.
    pub proto_registry: Registry,
}

/// One line for a binding: the message type, a colon, the table.
pub open spec fn binding_line(binding: MessageBinding) -> Seq<char> {
    binding.full_name@ + ": "@ + qualified_name(binding.table.parts@)
}

impl AppContext {
    /// A context without bindings.
    pub fn new() -> (context: AppContext)
        ensures
            context.proto_registry.bindings@.len() == 0,
            context.proto_registry.wf(),
    {
        AppContext { proto_registry: Registry::new() }
    }

    /// One line for each binding, in the order in which they were made.
    pub fn to_string(&self) -> (lines: Vec<String>)
        ensures
            texts(lines@) == Seq::new(
                self.proto_registry.bindings@.len(),
                |i: int| binding_line(self.proto_registry.bindings@[i]),
            ),
    {
        let mut lines: Vec<String> = Vec::new();
        let mut i: usize = 0;
        while i < self.proto_registry.bindings.len()
            invariant
                i <= self.proto_registry.bindings@.len(),
                lines@.len() == i,
                forall|j: int|
                    0 <= j < i ==> (#[trigger] lines@[j])@ == binding_line(
                        self.proto_registry.bindings@[j],
                    ),
            decreases self.proto_registry.bindings.len() - i,
        {
            let binding = &self.proto_registry.bindings[i];
            let mut line = binding.full_name.clone();
            line.append(": ");
            line.append(binding.table.parts.to_string().as_str());
            lines.push(line);
            i = i + 1;
        }
        assert(texts(lines@) =~= Seq::new(
            self.proto_registry.bindings@.len(),
            |i: int| binding_line(self.proto_registry.bindings@[i]),
        ));
        lines
    }
}

} // verus!
