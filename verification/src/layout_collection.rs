//! A collection of layouts of one kind, one of them current; messages can
//! cycle forwards and backwards through them.

use vstd::prelude::*;

use crate::layout::GeneralConfig;
use crate::layout::Layout;
use crate::layout::LayoutMessage;
use crate::layout::Rectangle;
use crate::layout::Stack;
use crate::layout::Window;

verus! {

/// The layouts to cycle through and the index of the current one.
pub struct LayoutCollection<L: Layout> {
    pub layouts: Vec<L>,
    pub current: usize,
}

impl<L: Layout> LayoutCollection<L> {
    /// Wrap `layouts`, starting at the first.
    pub fn boxed_new(layouts: Vec<L>) -> (r: Box<LayoutCollection<L>>)
        requires
            forall|i: int| 0 <= i < layouts@.len() ==> #[trigger] layouts@[i].valid(),
        ensures
            r.valid(),
            r.current == 0,
    {
        Box::new(LayoutCollection { layouts, current: 0 })
    }
}

impl<L: Layout> Layout for LayoutCollection<L> {
    open spec fn valid(&self) -> bool {
        forall|i: int| 0 <= i < self.layouts@.len() ==> #[trigger] self.layouts@[i].valid()
    }

    fn apply_layout(
        &mut self,
        screen: Rectangle,
        config: &GeneralConfig,
        stack: &Option<Stack>,
    ) -> (r: Vec<(Window, Rectangle)>) {
        if self.current < self.layouts.len() {
            let ghost before = self.layouts@;
            let c = self.current;
            let mut l = self.layouts.remove(c);
            let r = l.apply_layout(screen, config, stack);
            self.layouts.insert(c, l);
            proof {
                assert forall|i: int| 0 <= i < self.layouts@.len() implies #[trigger] self
                    .layouts@[i].valid() by {
                    if i < c {
                        assert(self.layouts@[i] == before[i]);
                    } else if i > c {
                        assert(self.layouts@[i] == before[i]);
                    }
                }
            }
            r
        } else {
            Vec::new()
        }
    }

    fn apply_message(
        &mut self,
        message: LayoutMessage,
        stack: &Option<Stack>,
        config: &GeneralConfig,
    ) -> (r: bool)
        ensures
            final(self).layouts@.len() == old(self).layouts@.len(),
            message == LayoutMessage::Next ==> (r && final(self).layouts@ == old(self).layouts@
                && final(self).current == (if old(self).current < old(self).layouts@.len() {
                ((old(self).current + 1) as int % old(self).layouts@.len() as int) as usize
            } else {
                old(self).current
            })),
            message == LayoutMessage::Prev ==> (r && final(self).layouts@ == old(self).layouts@
                && final(self).current == (if old(self).current >= old(self).layouts@.len() {
                old(self).current
            } else if old(self).current == 0 {
                (old(self).layouts@.len() - 1) as usize
            } else {
                (old(self).current - 1) as usize
            })),
            message != LayoutMessage::Next && message != LayoutMessage::Prev
                ==> final(self).current == old(self).current,
            message != LayoutMessage::Next && message != LayoutMessage::Prev && old(self).current
                >= old(self).layouts@.len()
                ==> (!r && final(self).layouts@ == old(self).layouts@),
    {
        match message {
            LayoutMessage::Next => {
                if self.current < self.layouts.len() {
                    self.layouts[self.current].unhook(stack, config);
                    self.current = (self.current + 1) % self.layouts.len();
                }
                true
            },
            LayoutMessage::Prev => {
                if self.current < self.layouts.len() {
                    self.layouts[self.current].unhook(stack, config);
                    self.current = if self.current == 0 {
                        self.layouts.len() - 1
                    } else {
                        self.current - 1
                    };
                }
                true
            },
            _ => {
                if self.current < self.layouts.len() {
                    let ghost before = self.layouts@;
                    let c = self.current;
                    let mut l = self.layouts.remove(c);
                    let r = l.apply_message(message, stack, config);
                    self.layouts.insert(c, l);
                    proof {
                        assert forall|i: int| 0 <= i < self.layouts@.len() implies #[trigger] self
                            .layouts@[i].valid() by {
                            if i < c {
                                assert(self.layouts@[i] == before[i]);
                            } else if i > c {
                                assert(self.layouts@[i] == before[i]);
                            }
                        }
                    }
                    r
                } else {
                    false
                }
            },
        }
    }

    fn description(&self) -> (d: String) {
        if self.current < self.layouts.len() {
            self.layouts[self.current].description()
        } else {
            "".to_string()
        }
    }

    fn unhook(&self, stack: &Option<Stack>, config: &GeneralConfig) {
        if self.current < self.layouts.len() {
            self.layouts[self.current].unhook(stack, config)
        }
    }
}

} // verus!
