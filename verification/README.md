# day-uikit

Day's backend for UIKit. A piece of an interface (a label, a list, a navigation stack, a window
toolbar) is realized as native views, kept up to date by patches, and answered by events.

The decisions of the backend are a library of their own, written in Verus: every function in
`src/` states what it returns or changes, and Verus proves it. The library calls nothing outside
the standard library. A native object is an address, a closure is a token, and a coordinate is the
bit pattern of a floating-point number, which the library orders and never computes with.

- `src/`: the decision core.
  - `types`, `event`: the plain values, and the call an emission makes on the installed sink.
  - `modal`, `idle`, `present`: one modal transition at a time, its watchdog, dialogs and pickers.
  - `nav_stack`, `split`, `navs`, `tabs`, `nav_menu`: stacks, columns, containment, tabs, sidebars.
  - `menu`, `toolbar`, `keys`: menus, the window toolbar, and keys.
  - `tree`, `list`: disclosure, selection and the guards of rows.
  - `piece`, `control`, `gesture`, `frame`, `anim`: realizing, patching and measuring.
  - `draw`, `font`, `text`, `style`: drawing, fonts, attributed ranges and appearance.
  - `scene`: windows, life cycle and the frame clock.
  - `uikit`: the backend's state as one value, and what a release takes back.
- `tests/`: the core on concrete values.
- `app/`: the views, controllers and delegates. It reports what UIKit did and performs the answers.

The properties that span several functions are public proof functions, named `law_`, in the
module they are about.
