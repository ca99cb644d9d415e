use vstd::prelude::*;
use vstd::string::*;
use crate::data::Builtin;
use crate::data::Data;
use crate::data::DataView;
use crate::data::Item;
use crate::data::ItemView;
use crate::data::RustFunc;
use crate::data::plain;
use crate::heap::Heap;
use crate::heap::HeapView;
use crate::heap::set_key;

verus! {

/// The heap after binding a builtin to a name in a scope.
pub open spec fn bind(heap: HeapView, scope: ItemView, name: Seq<char>, b: Builtin) -> HeapView {
    set_key(heap, scope, DataView::Str(name), plain(DataView::Rust(RustFunc(b))))
}

/// The heap after binding every builtin in a scope.
pub open spec fn prelude(heap: HeapView, scope: ItemView) -> HeapView {
    let h1 = bind(heap, scope, "print"@, Builtin::Print);
    let h2 = bind(h1, scope, "panic"@, Builtin::Panic);
    let h3 = bind(h2, scope, "assert"@, Builtin::Assert);
    let h4 = bind(h3, scope, "import"@, Builtin::Import);
    let h5 = bind(h4, scope, "table"@, Builtin::Table);
    let h6 = bind(h5, scope, "get"@, Builtin::Get);
    bind(h6, scope, "set"@, Builtin::SetKey)
}

/// Sets an item under a name in a scope.
pub fn insert_item(scope: &Item, heap: &mut Heap, key: &str, val: Item)
    ensures
        final(heap)@ == set_key(old(heap)@, scope@, DataView::Str(key@), val@),
{
    scope.set_key(heap, Data::Str(String::from_str(key)), val);
}

/// Sets a value under a name in a scope.
pub fn insert_data(scope: &Item, heap: &mut Heap, key: &str, val: Data)
    ensures
        final(heap)@ == set_key(old(heap)@, scope@, DataView::Str(key@), plain(val@)),
{
    insert_item(scope, heap, key, val.into_item());
}

/// Binds every builtin in a scope.
pub fn insert_prelude(scope: &Item, heap: &mut Heap)
    ensures
        final(heap)@ == prelude(old(heap)@, scope@),
{
    insert_data(scope, heap, "print", Data::Rust(RustFunc(Builtin::Print)));
    insert_data(scope, heap, "panic", Data::Rust(RustFunc(Builtin::Panic)));
    insert_data(scope, heap, "assert", Data::Rust(RustFunc(Builtin::Assert)));
    insert_data(scope, heap, "import", Data::Rust(RustFunc(Builtin::Import)));
    insert_data(scope, heap, "table", Data::Rust(RustFunc(Builtin::Table)));
    insert_data(scope, heap, "get", Data::Rust(RustFunc(Builtin::Get)));
    insert_data(scope, heap, "set", Data::Rust(RustFunc(Builtin::SetKey)));
}

} // verus!
