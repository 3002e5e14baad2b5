//! Dispatch of the interrupt callbacks onto the one shared game and surface.
use vstd::prelude::*;

use crate::pong::{Key, PongGame};
use crate::screen::{after_text, ScreenWriter};

verus! {

/// The greeting written when the runtime starts.
pub open spec fn welcome() -> Seq<char> {
    "Welcome to Pong OS!\n"@ + "Use Up/Down arrows to move your paddle\n"@
        + "First to 5 points wins!\n"@
}

/// The shared state that the startup, tick and key callbacks act on: the
/// surface, and the game once it has been created.
pub struct Runtime {
    pub screen: ScreenWriter,
    pub game: Option<PongGame>,
}

impl Runtime {
    pub open spec fn wf(&self) -> bool {
        &&& self.screen.wf()
        &&& self.game matches Some(g) ==> g.wf()
    }

    /// A runtime over `screen` with no game yet.
    pub fn new(screen: ScreenWriter) -> (r: Self)
        requires
            screen.wf(),
        ensures
            r.wf(),
            r.screen == screen,
            r.game is None,
    {
        Runtime { screen, game: None }
    }

    /// Installs the game that the callbacks drive.
    pub fn install(&mut self, game: PongGame)
        requires
            old(self).wf(),
            game.wf(),
        ensures
            final(self).wf(),
            final(self).screen == old(self).screen,
            final(self).game == Some(game),
    {
        self.game = Some(game);
    }

    /// Startup callback: greets the player, then draws the game if there is one.
    pub fn start(&mut self)
        requires
            old(self).wf(),
        ensures
            final(self).wf(),
            final(self).game == old(self).game,
            final(self).screen.info_spec() == old(self).screen.info_spec(),
            ({
                let greeted = after_text(
                    old(self).screen.info_spec(),
                    old(self).screen.text_state(),
                    welcome(),
                );
                final(self).screen.text_state() == match old(self).game {
                    Some(g) => g.scene(old(self).screen.info_spec(), greeted),
                    None => greeted,
                }
            }),
    {
        let ghost info = self.screen.info_spec();
        let ghost st0 = self.screen.text_state();
        self.screen.write_str("Welcome to Pong OS!\n");
        self.screen.write_str("Use Up/Down arrows to move your paddle\n");
        self.screen.write_str("First to 5 points wins!\n");
        proof {
            lemma_after_text_append(info, st0, "Welcome to Pong OS!\n"@, "Use Up/Down arrows to move your paddle\n"@);
            lemma_after_text_append(
                info,
                st0,
                "Welcome to Pong OS!\n"@ + "Use Up/Down arrows to move your paddle\n"@,
                "First to 5 points wins!\n"@,
            );
        }
        match &self.game {
            Some(game) => game.render(&mut self.screen),
            None => {},
        }
    }

    /// Timer callback: advances the game one step and redraws it.
    pub fn tick(&mut self)
        requires
            old(self).wf(),
        ensures
            final(self).wf(),
            final(self).screen.info_spec() == old(self).screen.info_spec(),
            match old(self).game {
                Some(g) => {
                    &&& final(self).game matches Some(g2)
                    &&& g2.ticked_from(&g)
                    &&& final(self).screen.text_state() == g2.scene(
                        old(self).screen.info_spec(),
                        old(self).screen.text_state(),
                    )
                },
                None => *final(self) == *old(self),
            },
    {
        match &mut self.game {
            Some(game) => {
                game.update();
                game.render(&mut self.screen);
            },
            None => {},
        }
    }

    /// Keyboard callback: hands the key to the game.
    pub fn key(&mut self, key: Key)
        requires
            old(self).wf(),
        ensures
            final(self).wf(),
            final(self).screen == old(self).screen,
            match old(self).game {
                Some(g) => final(self).game matches Some(g2) && g2.keyed_from(&g, key),
                None => final(self).game is None,
            },
    {
        match &mut self.game {
            Some(game) => game.handle_key(key),
            None => {},
        }
    }
}

/// Writing `a` then `b` is writing `a + b`.
pub proof fn lemma_after_text_append(
    info: crate::screen::FrameBufferInfo,
    st: (Seq<u8>, int, int),
    a: Seq<char>,
    b: Seq<char>,
)
    ensures
        after_text(info, after_text(info, st, a), b) == after_text(info, st, a + b),
    decreases b.len(),
{
    if b.len() == 0 {
        assert(a + b =~= a);
    } else {
        lemma_after_text_append(info, st, a, b.drop_last());
        assert((a + b).drop_last() =~= a + b.drop_last());
        assert((a + b).last() == b.last());
    }
}

} // verus!
