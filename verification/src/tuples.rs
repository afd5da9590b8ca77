//! Renderings of tuples of up to twelve fields: the fields in parentheses,
//! without a name.

use vstd::prelude::*;
use crate::layout::{joined, lemma_empty_literal, tuple_field_of};
use crate::Formatter;

verus! {

broadcast use crate::builders::group_builder_resolved;

impl<T0: crate::Debug> crate::Debug for (T0,) {
    open spec fn rendered(&self, pretty: bool) -> Option<Seq<char>> {
        let fields = tuple_field_of(true, self.0.rendered(pretty), pretty);
        joined(fields, Some(")"@))
    }

    fn fmt(&self, f: &mut Formatter) -> (r: core::fmt::Result) {
        let ghost start = f@;
        let ghost pretty = start.pretty;
        let mut builder = f.debug_tuple("");
        let ghost begun = builder@;
        proof {
            lemma_empty_literal();
            start.lemma_write_nothing();
        }
        builder.field(&self.0);
        let ghost fields = tuple_field_of(true, self.0.rendered(pretty), pretty);
        let ghost last = builder@;
        let r = builder.finish();
        proof {
            begun.lemma_step_twice(fields, last, Some(")"@), builder@);
        }
        r
    }
}

impl<T0: crate::Debug, T1: crate::Debug> crate::Debug for (T0, T1) {
    open spec fn rendered(&self, pretty: bool) -> Option<Seq<char>> {
        let fields = tuple_field_of(true, self.0.rendered(pretty), pretty);
        let fields = joined(fields, tuple_field_of(false, self.1.rendered(pretty), pretty));
        joined(fields, Some(")"@))
    }

    fn fmt(&self, f: &mut Formatter) -> (r: core::fmt::Result) {
        let ghost start = f@;
        let ghost pretty = start.pretty;
        let mut builder = f.debug_tuple("");
        let ghost begun = builder@;
        proof {
            lemma_empty_literal();
            start.lemma_write_nothing();
        }
        builder.field(&self.0);
        let ghost fields = tuple_field_of(true, self.0.rendered(pretty), pretty);
        let ghost last = builder@;
        builder.field(&self.1);
        proof {
            let field = tuple_field_of(false, self.1.rendered(pretty), pretty);
            begun.lemma_step_twice(fields, last, field, builder@);
            fields = joined(fields, field);
            last = builder@;
        }
        let r = builder.finish();
        proof {
            begun.lemma_step_twice(fields, last, Some(")"@), builder@);
        }
        r
    }
}

impl<T0: crate::Debug, T1: crate::Debug, T2: crate::Debug> crate::Debug for (T0, T1, T2) {
    open spec fn rendered(&self, pretty: bool) -> Option<Seq<char>> {
        let fields = tuple_field_of(true, self.0.rendered(pretty), pretty);
        let fields = joined(fields, tuple_field_of(false, self.1.rendered(pretty), pretty));
        let fields = joined(fields, tuple_field_of(false, self.2.rendered(pretty), pretty));
        joined(fields, Some(")"@))
    }

    fn fmt(&self, f: &mut Formatter) -> (r: core::fmt::Result) {
        let ghost start = f@;
        let ghost pretty = start.pretty;
        let mut builder = f.debug_tuple("");
        let ghost begun = builder@;
        proof {
            lemma_empty_literal();
            start.lemma_write_nothing();
        }
        builder.field(&self.0);
        let ghost fields = tuple_field_of(true, self.0.rendered(pretty), pretty);
        let ghost last = builder@;
        builder.field(&self.1);
        proof {
            let field = tuple_field_of(false, self.1.rendered(pretty), pretty);
            begun.lemma_step_twice(fields, last, field, builder@);
            fields = joined(fields, field);
            last = builder@;
        }
        builder.field(&self.2);
        proof {
            let field = tuple_field_of(false, self.2.rendered(pretty), pretty);
            begun.lemma_step_twice(fields, last, field, builder@);
            fields = joined(fields, field);
            last = builder@;
        }
        let r = builder.finish();
        proof {
            begun.lemma_step_twice(fields, last, Some(")"@), builder@);
        }
        r
    }
}

impl<
    T0: crate::Debug,
    T1: crate::Debug,
    T2: crate::Debug,
    T3: crate::Debug,
> crate::Debug for (T0, T1, T2, T3) {
    open spec fn rendered(&self, pretty: bool) -> Option<Seq<char>> {
        let fields = tuple_field_of(true, self.0.rendered(pretty), pretty);
        let fields = joined(fields, tuple_field_of(false, self.1.rendered(pretty), pretty));
        let fields = joined(fields, tuple_field_of(false, self.2.rendered(pretty), pretty));
        let fields = joined(fields, tuple_field_of(false, self.3.rendered(pretty), pretty));
        joined(fields, Some(")"@))
    }

    fn fmt(&self, f: &mut Formatter) -> (r: core::fmt::Result) {
        let ghost start = f@;
        let ghost pretty = start.pretty;
        let mut builder = f.debug_tuple("");
        let ghost begun = builder@;
        proof {
            lemma_empty_literal();
            start.lemma_write_nothing();
        }
        builder.field(&self.0);
        let ghost fields = tuple_field_of(true, self.0.rendered(pretty), pretty);
        let ghost last = builder@;
        builder.field(&self.1);
        proof {
            let field = tuple_field_of(false, self.1.rendered(pretty), pretty);
            begun.lemma_step_twice(fields, last, field, builder@);
            fields = joined(fields, field);
            last = builder@;
        }
        builder.field(&self.2);
        proof {
            let field = tuple_field_of(false, self.2.rendered(pretty), pretty);
            begun.lemma_step_twice(fields, last, field, builder@);
            fields = joined(fields, field);
            last = builder@;
        }
        builder.field(&self.3);
        proof {
            let field = tuple_field_of(false, self.3.rendered(pretty), pretty);
            begun.lemma_step_twice(fields, last, field, builder@);
            fields = joined(fields, field);
            last = builder@;
        }
        let r = builder.finish();
        proof {
            begun.lemma_step_twice(fields, last, Some(")"@), builder@);
        }
        r
    }
}

impl<
    T0: crate::Debug,
    T1: crate::Debug,
    T2: crate::Debug,
    T3: crate::Debug,
    T4: crate::Debug,
> crate::Debug for (T0, T1, T2, T3, T4) {
    open spec fn rendered(&self, pretty: bool) -> Option<Seq<char>> {
        let fields = tuple_field_of(true, self.0.rendered(pretty), pretty);
        let fields = joined(fields, tuple_field_of(false, self.1.rendered(pretty), pretty));
        let fields = joined(fields, tuple_field_of(false, self.2.rendered(pretty), pretty));
        let fields = joined(fields, tuple_field_of(false, self.3.rendered(pretty), pretty));
        let fields = joined(fields, tuple_field_of(false, self.4.rendered(pretty), pretty));
        joined(fields, Some(")"@))
    }

    fn fmt(&self, f: &mut Formatter) -> (r: core::fmt::Result) {
        let ghost start = f@;
        let ghost pretty = start.pretty;
        let mut builder = f.debug_tuple("");
        let ghost begun = builder@;
        proof {
            lemma_empty_literal();
            start.lemma_write_nothing();
        }
        builder.field(&self.0);
        let ghost fields = tuple_field_of(true, self.0.rendered(pretty), pretty);
        let ghost last = builder@;
        builder.field(&self.1);
        proof {
            let field = tuple_field_of(false, self.1.rendered(pretty), pretty);
            begun.lemma_step_twice(fields, last, field, builder@);
            fields = joined(fields, field);
            last = builder@;
        }
        builder.field(&self.2);
        proof {
            let field = tuple_field_of(false, self.2.rendered(pretty), pretty);
            begun.lemma_step_twice(fields, last, field, builder@);
            fields = joined(fields, field);
            last = builder@;
        }
        builder.field(&self.3);
        proof {
            let field = tuple_field_of(false, self.3.rendered(pretty), pretty);
            begun.lemma_step_twice(fields, last, field, builder@);
            fields = joined(fields, field);
            last = builder@;
        }
        builder.field(&self.4);
        proof {
            let field = tuple_field_of(false, self.4.rendered(pretty), pretty);
            begun.lemma_step_twice(fields, last, field, builder@);
            fields = joined(fields, field);
            last = builder@;
        }
        let r = builder.finish();
        proof {
            begun.lemma_step_twice(fields, last, Some(")"@), builder@);
        }
        r
    }
}

impl<
    T0: crate::Debug,
    T1: crate::Debug,
    T2: crate::Debug,
    T3: crate::Debug,
    T4: crate::Debug,
    T5: crate::Debug,
> crate::Debug for (T0, T1, T2, T3, T4, T5) {
    open spec fn rendered(&self, pretty: bool) -> Option<Seq<char>> {
        let fields = tuple_field_of(true, self.0.rendered(pretty), pretty);
        let fields = joined(fields, tuple_field_of(false, self.1.rendered(pretty), pretty));
        let fields = joined(fields, tuple_field_of(false, self.2.rendered(pretty), pretty));
        let fields = joined(fields, tuple_field_of(false, self.3.rendered(pretty), pretty));
        let fields = joined(fields, tuple_field_of(false, self.4.rendered(pretty), pretty));
        let fields = joined(fields, tuple_field_of(false, self.5.rendered(pretty), pretty));
        joined(fields, Some(")"@))
    }

    fn fmt(&self, f: &mut Formatter) -> (r: core::fmt::Result) {
        let ghost start = f@;
        let ghost pretty = start.pretty;
        let mut builder = f.debug_tuple("");
        let ghost begun = builder@;
        proof {
            lemma_empty_literal();
            start.lemma_write_nothing();
        }
        builder.field(&self.0);
        let ghost fields = tuple_field_of(true, self.0.rendered(pretty), pretty);
        let ghost last = builder@;
        builder.field(&self.1);
        proof {
            let field = tuple_field_of(false, self.1.rendered(pretty), pretty);
            begun.lemma_step_twice(fields, last, field, builder@);
            fields = joined(fields, field);
            last = builder@;
        }
        builder.field(&self.2);
        proof {
            let field = tuple_field_of(false, self.2.rendered(pretty), pretty);
            begun.lemma_step_twice(fields, last, field, builder@);
            fields = joined(fields, field);
            last = builder@;
        }
        builder.field(&self.3);
        proof {
            let field = tuple_field_of(false, self.3.rendered(pretty), pretty);
            begun.lemma_step_twice(fields, last, field, builder@);
            fields = joined(fields, field);
            last = builder@;
        }
        builder.field(&self.4);
        proof {
            let field = tuple_field_of(false, self.4.rendered(pretty), pretty);
            begun.lemma_step_twice(fields, last, field, builder@);
            fields = joined(fields, field);
            last = builder@;
        }
        builder.field(&self.5);
        proof {
            let field = tuple_field_of(false, self.5.rendered(pretty), pretty);
            begun.lemma_step_twice(fields, last, field, builder@);
            fields = joined(fields, field);
            last = builder@;
        }
        let r = builder.finish();
        proof {
            begun.lemma_step_twice(fields, last, Some(")"@), builder@);
        }
        r
    }
}

impl<
    T0: crate::Debug,
    T1: crate::Debug,
    T2: crate::Debug,
    T3: crate::Debug,
    T4: crate::Debug,
    T5: crate::Debug,
    T6: crate::Debug,
> crate::Debug for (T0, T1, T2, T3, T4, T5, T6) {
    open spec fn rendered(&self, pretty: bool) -> Option<Seq<char>> {
        let fields = tuple_field_of(true, self.0.rendered(pretty), pretty);
        let fields = joined(fields, tuple_field_of(false, self.1.rendered(pretty), pretty));
        let fields = joined(fields, tuple_field_of(false, self.2.rendered(pretty), pretty));
        let fields = joined(fields, tuple_field_of(false, self.3.rendered(pretty), pretty));
        let fields = joined(fields, tuple_field_of(false, self.4.rendered(pretty), pretty));
        let fields = joined(fields, tuple_field_of(false, self.5.rendered(pretty), pretty));
        let fields = joined(fields, tuple_field_of(false, self.6.rendered(pretty), pretty));
        joined(fields, Some(")"@))
    }

    fn fmt(&self, f: &mut Formatter) -> (r: core::fmt::Result) {
        let ghost start = f@;
        let ghost pretty = start.pretty;
        let mut builder = f.debug_tuple("");
        let ghost begun = builder@;
        proof {
            lemma_empty_literal();
            start.lemma_write_nothing();
        }
        builder.field(&self.0);
        let ghost fields = tuple_field_of(true, self.0.rendered(pretty), pretty);
        let ghost last = builder@;
        builder.field(&self.1);
        proof {
            let field = tuple_field_of(false, self.1.rendered(pretty), pretty);
            begun.lemma_step_twice(fields, last, field, builder@);
            fields = joined(fields, field);
            last = builder@;
        }
        builder.field(&self.2);
        proof {
            let field = tuple_field_of(false, self.2.rendered(pretty), pretty);
            begun.lemma_step_twice(fields, last, field, builder@);
            fields = joined(fields, field);
            last = builder@;
        }
        builder.field(&self.3);
        proof {
            let field = tuple_field_of(false, self.3.rendered(pretty), pretty);
            begun.lemma_step_twice(fields, last, field, builder@);
            fields = joined(fields, field);
            last = builder@;
        }
        builder.field(&self.4);
        proof {
            let field = tuple_field_of(false, self.4.rendered(pretty), pretty);
            begun.lemma_step_twice(fields, last, field, builder@);
            fields = joined(fields, field);
            last = builder@;
        }
        builder.field(&self.5);
        proof {
            let field = tuple_field_of(false, self.5.rendered(pretty), pretty);
            begun.lemma_step_twice(fields, last, field, builder@);
            fields = joined(fields, field);
            last = builder@;
        }
        builder.field(&self.6);
        proof {
            let field = tuple_field_of(false, self.6.rendered(pretty), pretty);
            begun.lemma_step_twice(fields, last, field, builder@);
            fields = joined(fields, field);
            last = builder@;
        }
        let r = builder.finish();
        proof {
            begun.lemma_step_twice(fields, last, Some(")"@), builder@);
        }
        r
    }
}

impl<
    T0: crate::Debug,
    T1: crate::Debug,
    T2: crate::Debug,
    T3: crate::Debug,
    T4: crate::Debug,
    T5: crate::Debug,
    T6: crate::Debug,
    T7: crate::Debug,
> crate::Debug for (T0, T1, T2, T3, T4, T5, T6, T7) {
    open spec fn rendered(&self, pretty: bool) -> Option<Seq<char>> {
        let fields = tuple_field_of(true, self.0.rendered(pretty), pretty);
        let fields = joined(fields, tuple_field_of(false, self.1.rendered(pretty), pretty));
        let fields = joined(fields, tuple_field_of(false, self.2.rendered(pretty), pretty));
        let fields = joined(fields, tuple_field_of(false, self.3.rendered(pretty), pretty));
        let fields = joined(fields, tuple_field_of(false, self.4.rendered(pretty), pretty));
        let fields = joined(fields, tuple_field_of(false, self.5.rendered(pretty), pretty));
        let fields = joined(fields, tuple_field_of(false, self.6.rendered(pretty), pretty));
        let fields = joined(fields, tuple_field_of(false, self.7.rendered(pretty), pretty));
        joined(fields, Some(")"@))
    }

    fn fmt(&self, f: &mut Formatter) -> (r: core::fmt::Result) {
        let ghost start = f@;
        let ghost pretty = start.pretty;
        let mut builder = f.debug_tuple("");
        let ghost begun = builder@;
        proof {
            lemma_empty_literal();
            start.lemma_write_nothing();
        }
        builder.field(&self.0);
        let ghost fields = tuple_field_of(true, self.0.rendered(pretty), pretty);
        let ghost last = builder@;
        builder.field(&self.1);
        proof {
            let field = tuple_field_of(false, self.1.rendered(pretty), pretty);
            begun.lemma_step_twice(fields, last, field, builder@);
            fields = joined(fields, field);
            last = builder@;
        }
        builder.field(&self.2);
        proof {
            let field = tuple_field_of(false, self.2.rendered(pretty), pretty);
            begun.lemma_step_twice(fields, last, field, builder@);
            fields = joined(fields, field);
            last = builder@;
        }
        builder.field(&self.3);
        proof {
            let field = tuple_field_of(false, self.3.rendered(pretty), pretty);
            begun.lemma_step_twice(fields, last, field, builder@);
            fields = joined(fields, field);
            last = builder@;
        }
        builder.field(&self.4);
        proof {
            let field = tuple_field_of(false, self.4.rendered(pretty), pretty);
            begun.lemma_step_twice(fields, last, field, builder@);
            fields = joined(fields, field);
            last = builder@;
        }
        builder.field(&self.5);
        proof {
            let field = tuple_field_of(false, self.5.rendered(pretty), pretty);
            begun.lemma_step_twice(fields, last, field, builder@);
            fields = joined(fields, field);
            last = builder@;
        }
        builder.field(&self.6);
        proof {
            let field = tuple_field_of(false, self.6.rendered(pretty), pretty);
            begun.lemma_step_twice(fields, last, field, builder@);
            fields = joined(fields, field);
            last = builder@;
        }
        builder.field(&self.7);
        proof {
            let field = tuple_field_of(false, self.7.rendered(pretty), pretty);
            begun.lemma_step_twice(fields, last, field, builder@);
            fields = joined(fields, field);
            last = builder@;
        }
        let r = builder.finish();
        proof {
            begun.lemma_step_twice(fields, last, Some(")"@), builder@);
        }
        r
    }
}

impl<
    T0: crate::Debug,
    T1: crate::Debug,
    T2: crate::Debug,
    T3: crate::Debug,
    T4: crate::Debug,
    T5: crate::Debug,
    T6: crate::Debug,
    T7: crate::Debug,
    T8: crate::Debug,
> crate::Debug for (T0, T1, T2, T3, T4, T5, T6, T7, T8) {
    open spec fn rendered(&self, pretty: bool) -> Option<Seq<char>> {
        let fields = tuple_field_of(true, self.0.rendered(pretty), pretty);
        let fields = joined(fields, tuple_field_of(false, self.1.rendered(pretty), pretty));
        let fields = joined(fields, tuple_field_of(false, self.2.rendered(pretty), pretty));
        let fields = joined(fields, tuple_field_of(false, self.3.rendered(pretty), pretty));
        let fields = joined(fields, tuple_field_of(false, self.4.rendered(pretty), pretty));
        let fields = joined(fields, tuple_field_of(false, self.5.rendered(pretty), pretty));
        let fields = joined(fields, tuple_field_of(false, self.6.rendered(pretty), pretty));
        let fields = joined(fields, tuple_field_of(false, self.7.rendered(pretty), pretty));
        let fields = joined(fields, tuple_field_of(false, self.8.rendered(pretty), pretty));
        joined(fields, Some(")"@))
    }

    fn fmt(&self, f: &mut Formatter) -> (r: core::fmt::Result) {
        let ghost start = f@;
        let ghost pretty = start.pretty;
        let mut builder = f.debug_tuple("");
        let ghost begun = builder@;
        proof {
            lemma_empty_literal();
            start.lemma_write_nothing();
        }
        builder.field(&self.0);
        let ghost fields = tuple_field_of(true, self.0.rendered(pretty), pretty);
        let ghost last = builder@;
        builder.field(&self.1);
        proof {
            let field = tuple_field_of(false, self.1.rendered(pretty), pretty);
            begun.lemma_step_twice(fields, last, field, builder@);
            fields = joined(fields, field);
            last = builder@;
        }
        builder.field(&self.2);
        proof {
            let field = tuple_field_of(false, self.2.rendered(pretty), pretty);
            begun.lemma_step_twice(fields, last, field, builder@);
            fields = joined(fields, field);
            last = builder@;
        }
        builder.field(&self.3);
        proof {
            let field = tuple_field_of(false, self.3.rendered(pretty), pretty);
            begun.lemma_step_twice(fields, last, field, builder@);
            fields = joined(fields, field);
            last = builder@;
        }
        builder.field(&self.4);
        proof {
            let field = tuple_field_of(false, self.4.rendered(pretty), pretty);
            begun.lemma_step_twice(fields, last, field, builder@);
            fields = joined(fields, field);
            last = builder@;
        }
        builder.field(&self.5);
        proof {
            let field = tuple_field_of(false, self.5.rendered(pretty), pretty);
            begun.lemma_step_twice(fields, last, field, builder@);
            fields = joined(fields, field);
            last = builder@;
        }
        builder.field(&self.6);
        proof {
            let field = tuple_field_of(false, self.6.rendered(pretty), pretty);
            begun.lemma_step_twice(fields, last, field, builder@);
            fields = joined(fields, field);
            last = builder@;
        }
        builder.field(&self.7);
        proof {
            let field = tuple_field_of(false, self.7.rendered(pretty), pretty);
            begun.lemma_step_twice(fields, last, field, builder@);
            fields = joined(fields, field);
            last = builder@;
        }
        builder.field(&self.8);
        proof {
            let field = tuple_field_of(false, self.8.rendered(pretty), pretty);
            begun.lemma_step_twice(fields, last, field, builder@);
            fields = joined(fields, field);
            last = builder@;
        }
        let r = builder.finish();
        proof {
            begun.lemma_step_twice(fields, last, Some(")"@), builder@);
        }
        r
    }
}

impl<
    T0: crate::Debug,
    T1: crate::Debug,
    T2: crate::Debug,
    T3: crate::Debug,
    T4: crate::Debug,
    T5: crate::Debug,
    T6: crate::Debug,
    T7: crate::Debug,
    T8: crate::Debug,
    T9: crate::Debug,
> crate::Debug for (T0, T1, T2, T3, T4, T5, T6, T7, T8, T9) {
    open spec fn rendered(&self, pretty: bool) -> Option<Seq<char>> {
        let fields = tuple_field_of(true, self.0.rendered(pretty), pretty);
        let fields = joined(fields, tuple_field_of(false, self.1.rendered(pretty), pretty));
        let fields = joined(fields, tuple_field_of(false, self.2.rendered(pretty), pretty));
        let fields = joined(fields, tuple_field_of(false, self.3.rendered(pretty), pretty));
        let fields = joined(fields, tuple_field_of(false, self.4.rendered(pretty), pretty));
        let fields = joined(fields, tuple_field_of(false, self.5.rendered(pretty), pretty));
        let fields = joined(fields, tuple_field_of(false, self.6.rendered(pretty), pretty));
        let fields = joined(fields, tuple_field_of(false, self.7.rendered(pretty), pretty));
        let fields = joined(fields, tuple_field_of(false, self.8.rendered(pretty), pretty));
        let fields = joined(fields, tuple_field_of(false, self.9.rendered(pretty), pretty));
        joined(fields, Some(")"@))
    }

    fn fmt(&self, f: &mut Formatter) -> (r: core::fmt::Result) {
        let ghost start = f@;
        let ghost pretty = start.pretty;
        let mut builder = f.debug_tuple("");
        let ghost begun = builder@;
        proof {
            lemma_empty_literal();
            start.lemma_write_nothing();
        }
        builder.field(&self.0);
        let ghost fields = tuple_field_of(true, self.0.rendered(pretty), pretty);
        let ghost last = builder@;
        builder.field(&self.1);
        proof {
            let field = tuple_field_of(false, self.1.rendered(pretty), pretty);
            begun.lemma_step_twice(fields, last, field, builder@);
            fields = joined(fields, field);
            last = builder@;
        }
        builder.field(&self.2);
        proof {
            let field = tuple_field_of(false, self.2.rendered(pretty), pretty);
            begun.lemma_step_twice(fields, last, field, builder@);
            fields = joined(fields, field);
            last = builder@;
        }
        builder.field(&self.3);
        proof {
            let field = tuple_field_of(false, self.3.rendered(pretty), pretty);
            begun.lemma_step_twice(fields, last, field, builder@);
            fields = joined(fields, field);
            last = builder@;
        }
        builder.field(&self.4);
        proof {
            let field = tuple_field_of(false, self.4.rendered(pretty), pretty);
            begun.lemma_step_twice(fields, last, field, builder@);
            fields = joined(fields, field);
            last = builder@;
        }
        builder.field(&self.5);
        proof {
            let field = tuple_field_of(false, self.5.rendered(pretty), pretty);
            begun.lemma_step_twice(fields, last, field, builder@);
            fields = joined(fields, field);
            last = builder@;
        }
        builder.field(&self.6);
        proof {
            let field = tuple_field_of(false, self.6.rendered(pretty), pretty);
            begun.lemma_step_twice(fields, last, field, builder@);
            fields = joined(fields, field);
            last = builder@;
        }
        builder.field(&self.7);
        proof {
            let field = tuple_field_of(false, self.7.rendered(pretty), pretty);
            begun.lemma_step_twice(fields, last, field, builder@);
            fields = joined(fields, field);
            last = builder@;
        }
        builder.field(&self.8);
        proof {
            let field = tuple_field_of(false, self.8.rendered(pretty), pretty);
            begun.lemma_step_twice(fields, last, field, builder@);
            fields = joined(fields, field);
            last = builder@;
        }
        builder.field(&self.9);
        proof {
            let field = tuple_field_of(false, self.9.rendered(pretty), pretty);
            begun.lemma_step_twice(fields, last, field, builder@);
            fields = joined(fields, field);
            last = builder@;
        }
        let r = builder.finish();
        proof {
            begun.lemma_step_twice(fields, last, Some(")"@), builder@);
        }
        r
    }
}

impl<
    T0: crate::Debug,
    T1: crate::Debug,
    T2: crate::Debug,
    T3: crate::Debug,
    T4: crate::Debug,
    T5: crate::Debug,
    T6: crate::Debug,
    T7: crate::Debug,
    T8: crate::Debug,
    T9: crate::Debug,
    T10: crate::Debug,
> crate::Debug for (T0, T1, T2, T3, T4, T5, T6, T7, T8, T9, T10) {
    open spec fn rendered(&self, pretty: bool) -> Option<Seq<char>> {
        let fields = tuple_field_of(true, self.0.rendered(pretty), pretty);
        let fields = joined(fields, tuple_field_of(false, self.1.rendered(pretty), pretty));
        let fields = joined(fields, tuple_field_of(false, self.2.rendered(pretty), pretty));
        let fields = joined(fields, tuple_field_of(false, self.3.rendered(pretty), pretty));
        let fields = joined(fields, tuple_field_of(false, self.4.rendered(pretty), pretty));
        let fields = joined(fields, tuple_field_of(false, self.5.rendered(pretty), pretty));
        let fields = joined(fields, tuple_field_of(false, self.6.rendered(pretty), pretty));
        let fields = joined(fields, tuple_field_of(false, self.7.rendered(pretty), pretty));
        let fields = joined(fields, tuple_field_of(false, self.8.rendered(pretty), pretty));
        let fields = joined(fields, tuple_field_of(false, self.9.rendered(pretty), pretty));
        let fields = joined(fields, tuple_field_of(false, self.10.rendered(pretty), pretty));
        joined(fields, Some(")"@))
    }

    fn fmt(&self, f: &mut Formatter) -> (r: core::fmt::Result) {
        let ghost start = f@;
        let ghost pretty = start.pretty;
        let mut builder = f.debug_tuple("");
        let ghost begun = builder@;
        proof {
            lemma_empty_literal();
            start.lemma_write_nothing();
        }
        builder.field(&self.0);
        let ghost fields = tuple_field_of(true, self.0.rendered(pretty), pretty);
        let ghost last = builder@;
        builder.field(&self.1);
        proof {
            let field = tuple_field_of(false, self.1.rendered(pretty), pretty);
            begun.lemma_step_twice(fields, last, field, builder@);
            fields = joined(fields, field);
            last = builder@;
        }
        builder.field(&self.2);
        proof {
            let field = tuple_field_of(false, self.2.rendered(pretty), pretty);
            begun.lemma_step_twice(fields, last, field, builder@);
            fields = joined(fields, field);
            last = builder@;
        }
        builder.field(&self.3);
        proof {
            let field = tuple_field_of(false, self.3.rendered(pretty), pretty);
            begun.lemma_step_twice(fields, last, field, builder@);
            fields = joined(fields, field);
            last = builder@;
        }
        builder.field(&self.4);
        proof {
            let field = tuple_field_of(false, self.4.rendered(pretty), pretty);
            begun.lemma_step_twice(fields, last, field, builder@);
            fields = joined(fields, field);
            last = builder@;
        }
        builder.field(&self.5);
        proof {
            let field = tuple_field_of(false, self.5.rendered(pretty), pretty);
            begun.lemma_step_twice(fields, last, field, builder@);
            fields = joined(fields, field);
            last = builder@;
        }
        builder.field(&self.6);
        proof {
            let field = tuple_field_of(false, self.6.rendered(pretty), pretty);
            begun.lemma_step_twice(fields, last, field, builder@);
            fields = joined(fields, field);
            last = builder@;
        }
        builder.field(&self.7);
        proof {
            let field = tuple_field_of(false, self.7.rendered(pretty), pretty);
            begun.lemma_step_twice(fields, last, field, builder@);
            fields = joined(fields, field);
            last = builder@;
        }
        builder.field(&self.8);
        proof {
            let field = tuple_field_of(false, self.8.rendered(pretty), pretty);
            begun.lemma_step_twice(fields, last, field, builder@);
            fields = joined(fields, field);
            last = builder@;
        }
        builder.field(&self.9);
        proof {
            let field = tuple_field_of(false, self.9.rendered(pretty), pretty);
            begun.lemma_step_twice(fields, last, field, builder@);
            fields = joined(fields, field);
            last = builder@;
        }
        builder.field(&self.10);
        proof {
            let field = tuple_field_of(false, self.10.rendered(pretty), pretty);
            begun.lemma_step_twice(fields, last, field, builder@);
            fields = joined(fields, field);
            last = builder@;
        }
        let r = builder.finish();
        proof {
            begun.lemma_step_twice(fields, last, Some(")"@), builder@);
        }
        r
    }
}

impl<
    T0: crate::Debug,
    T1: crate::Debug,
    T2: crate::Debug,
    T3: crate::Debug,
    T4: crate::Debug,
    T5: crate::Debug,
    T6: crate::Debug,
    T7: crate::Debug,
    T8: crate::Debug,
    T9: crate::Debug,
    T10: crate::Debug,
    T11: crate::Debug,
> crate::Debug for (T0, T1, T2, T3, T4, T5, T6, T7, T8, T9, T10, T11) {
    open spec fn rendered(&self, pretty: bool) -> Option<Seq<char>> {
        let fields = tuple_field_of(true, self.0.rendered(pretty), pretty);
        let fields = joined(fields, tuple_field_of(false, self.1.rendered(pretty), pretty));
        let fields = joined(fields, tuple_field_of(false, self.2.rendered(pretty), pretty));
        let fields = joined(fields, tuple_field_of(false, self.3.rendered(pretty), pretty));
        let fields = joined(fields, tuple_field_of(false, self.4.rendered(pretty), pretty));
        let fields = joined(fields, tuple_field_of(false, self.5.rendered(pretty), pretty));
        let fields = joined(fields, tuple_field_of(false, self.6.rendered(pretty), pretty));
        let fields = joined(fields, tuple_field_of(false, self.7.rendered(pretty), pretty));
        let fields = joined(fields, tuple_field_of(false, self.8.rendered(pretty), pretty));
        let fields = joined(fields, tuple_field_of(false, self.9.rendered(pretty), pretty));
        let fields = joined(fields, tuple_field_of(false, self.10.rendered(pretty), pretty));
        let fields = joined(fields, tuple_field_of(false, self.11.rendered(pretty), pretty));
        joined(fields, Some(")"@))
    }

    fn fmt(&self, f: &mut Formatter) -> (r: core::fmt::Result) {
        let ghost start = f@;
        let ghost pretty = start.pretty;
        let mut builder = f.debug_tuple("");
        let ghost begun = builder@;
        proof {
            lemma_empty_literal();
            start.lemma_write_nothing();
        }
        builder.field(&self.0);
        let ghost fields = tuple_field_of(true, self.0.rendered(pretty), pretty);
        let ghost last = builder@;
        builder.field(&self.1);
        proof {
            let field = tuple_field_of(false, self.1.rendered(pretty), pretty);
            begun.lemma_step_twice(fields, last, field, builder@);
            fields = joined(fields, field);
            last = builder@;
        }
        builder.field(&self.2);
        proof {
            let field = tuple_field_of(false, self.2.rendered(pretty), pretty);
            begun.lemma_step_twice(fields, last, field, builder@);
            fields = joined(fields, field);
            last = builder@;
        }
        builder.field(&self.3);
        proof {
            let field = tuple_field_of(false, self.3.rendered(pretty), pretty);
            begun.lemma_step_twice(fields, last, field, builder@);
            fields = joined(fields, field);
            last = builder@;
        }
        builder.field(&self.4);
        proof {
            let field = tuple_field_of(false, self.4.rendered(pretty), pretty);
            begun.lemma_step_twice(fields, last, field, builder@);
            fields = joined(fields, field);
            last = builder@;
        }
        builder.field(&self.5);
        proof {
            let field = tuple_field_of(false, self.5.rendered(pretty), pretty);
            begun.lemma_step_twice(fields, last, field, builder@);
            fields = joined(fields, field);
            last = builder@;
        }
        builder.field(&self.6);
        proof {
            let field = tuple_field_of(false, self.6.rendered(pretty), pretty);
            begun.lemma_step_twice(fields, last, field, builder@);
            fields = joined(fields, field);
            last = builder@;
        }
        builder.field(&self.7);
        proof {
            let field = tuple_field_of(false, self.7.rendered(pretty), pretty);
            begun.lemma_step_twice(fields, last, field, builder@);
            fields = joined(fields, field);
            last = builder@;
        }
        builder.field(&self.8);
        proof {
            let field = tuple_field_of(false, self.8.rendered(pretty), pretty);
            begun.lemma_step_twice(fields, last, field, builder@);
            fields = joined(fields, field);
            last = builder@;
        }
        builder.field(&self.9);
        proof {
            let field = tuple_field_of(false, self.9.rendered(pretty), pretty);
            begun.lemma_step_twice(fields, last, field, builder@);
            fields = joined(fields, field);
            last = builder@;
        }
        builder.field(&self.10);
        proof {
            let field = tuple_field_of(false, self.10.rendered(pretty), pretty);
            begun.lemma_step_twice(fields, last, field, builder@);
            fields = joined(fields, field);
            last = builder@;
        }
        builder.field(&self.11);
        proof {
            let field = tuple_field_of(false, self.11.rendered(pretty), pretty);
            begun.lemma_step_twice(fields, last, field, builder@);
            fields = joined(fields, field);
            last = builder@;
        }
        let r = builder.finish();
        proof {
            begun.lemma_step_twice(fields, last, Some(")"@), builder@);
        }
        r
    }
}

} // verus!
