# kayak_ui

The bookkeeping core of a retained-mode user interface library, written in Verus with
its behaviour stated in contracts and proved.

`src/` holds the verified library:

- `tree`: the widget tree (parents, ordered children, a root) with navigation and
  pre-order traversal, and laws such as "stepping back undoes stepping forward".
- `focus_tree`: the tree of focusable widgets, focus cycling, and focusability settings.
- `styles`: style properties (`StyleProp`, `KStyle`) with resolution, inheritance and
  application, and the parsing of `box-shadow` and color texts.
- `node`, `layout`, `layout_dispatcher`: the layout properties handed to the layout
  engine, the layout cache with its change flags, and which layout events a pass sends.
- `event_dispatcher`, `input_event`, `cursor`: what widgets receive from input events,
  cursor capture, and the events kept between updates.
- `context`, `widget_context`, `context_entities`, `widget_state`, `children`: reusing
  widget entities between renders, context entities found through ancestors, widget
  state entities, and children added under their parent.

Floating-point values are carried as their bit patterns (`FloatBits`); the library never
computes with them.

`app/` holds what works on floats or implements the layout engine's traits: the layout
pass with `morphorm`, reading the numbers of box shadows, and choosing among widgets under
the cursor by z-index.
